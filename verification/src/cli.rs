//! The settings of one generation run.

use vstd::prelude::*;
use vstd::string::*;
use crate::text::{
    after_first, after_last, before_last, ends_with, lemma_without, split_at_first, split_at_last,
    str_eq, until_first,
};

verus! {

/// What a run is told: where the schema is, which templates to render and
/// where the output goes.
#[derive(Debug)]
pub struct Config {
    pub dotenv: Option<String>,
    pub database_url: Option<String>,
    pub output: String,
    pub template_directory: String,
    pub templates: Vec<String>,
    pub render_folder: bool,
}

/// Where the settings come from: the command line itself, or a file.
#[derive(Debug)]
pub enum Commands {
    Inline(Config),
    File { path: String },
}

/// The command line.
#[derive(Debug)]
pub struct Cli {
    pub command: Commands,
}

/// The default of `render_folder`.
#[inline]
pub fn bool_true() -> (r: bool)
    ensures
        r,
{
    true
}

/// The default of `template_directory`.
#[inline]
pub fn default_template_directory() -> (r: String)
    ensures
        r@ == "templates"@,
{
    String::from_str("templates")
}

impl Config {
    /// Settings with the given output directory and every other field at its
    /// default: no templates, the default template directory, one folder per
    /// template.
    pub fn with_output(output: String) -> (r: Config)
        ensures
            r.output == output,
            r.dotenv is None,
            r.database_url is None,
            r.template_directory@ == "templates"@,
            r.templates@.len() == 0,
            r.render_folder,
    {
        Config {
            dotenv: None,
            database_url: None,
            output,
            template_directory: default_template_directory(),
            templates: Vec::new(),
            render_folder: bool_true(),
        }
    }
}

/// Whether a table is left out of the generation: only the table in which
/// the migration tool keeps its own records is.
pub open spec fn spec_is_excluded_table(name: Seq<char>) -> bool {
    name == "_sqlx_migrations"@
}

/// Whether the table named `name` is left out of the generation.
pub fn is_excluded_table(name: &str) -> (r: bool)
    ensures
        r == spec_is_excluded_table(name@),
{
    str_eq(name, "_sqlx_migrations")
}

/// Whether a settings file is read as JSON: its path ends in `.json`. Any
/// other file is read as YAML.
pub fn is_json_path(path: &str) -> (r: bool)
    ensures
        r == ".json"@.is_suffix_of(path@),
{
    ends_with(path, ".json")
}

/// The schema that a database URL names: what follows its last `/`. A URL
/// without a `/` names none.
pub fn table_schema_of(database_url: &str) -> (r: Option<String>)
    ensures
        match r {
            Some(schema) => database_url@.contains('/') && schema@ == after_last(
                database_url@,
                '/',
            ),
            None => !database_url@.contains('/'),
        },
{
    proof {
        reveal_strlit("/");
        assert("/"@ =~= seq!['/']);
    }
    match split_at_last(database_url, "/", Ghost('/')) {
        Some((_, tail)) => Some(tail.to_owned()),
        None => None,
    }
}

/// The two parts of a template entry `name:suffix`: the template's name, and
/// the suffix of the files rendered from it, which is empty where the entry
/// has no colon. What follows a second colon is dropped.
pub fn split_template(template: &str) -> (r: (String, String))
    ensures
        r.0@ == until_first(template@, ':'),
        r.1@ == until_first(after_first(template@, ':'), ':'),
{
    proof {
        reveal_strlit(":");
        assert(":"@ =~= seq![':']);
    }
    match split_at_first(template, ":", Ghost(':')) {
        Some((name, rest)) => {
            match split_at_first(rest, ":", Ghost(':')) {
                Some((suffix, _)) => (name.to_owned(), suffix.to_owned()),
                None => {
                    proof {
                        lemma_without(rest@, ':');
                    }
                    (name.to_owned(), rest.to_owned())
                },
            }
        },
        None => {
            proof {
                lemma_without(template@, ':');
                lemma_without(Seq::<char>::empty(), ':');
            }
            (template.to_owned(), String::new())
        },
    }
}

/// The path of the file that holds what a template renders for a table.
pub open spec fn spec_output_file(
    output: Seq<char>,
    render_folder: bool,
    template_name: Seq<char>,
    suffix: Seq<char>,
    table_name: Seq<char>,
) -> Seq<char> {
    if render_folder {
        output + "/"@ + before_last(template_name, '.') + "/"@ + table_name + suffix
    } else {
        output + "/"@ + table_name + suffix
    }
}

/// The path of the file that holds what template `template_name` renders for
/// table `table_name`: in the output directory, and with `render_folder` in
/// a folder named like the template without its extension. There is no such
/// folder, and no path, for a template without a `.` in its name.
pub fn output_file(
    output: &str,
    render_folder: bool,
    template_name: &str,
    suffix: &str,
    table_name: &str,
) -> (r: Option<String>)
    ensures
        match r {
            Some(path) => path@ == spec_output_file(
                output@,
                render_folder,
                template_name@,
                suffix@,
                table_name@,
            ) && (render_folder ==> template_name@.contains('.')),
            None => render_folder && !template_name@.contains('.'),
        },
{
    let mut path = String::from_str(output);
    path.append("/");
    if render_folder {
        proof {
            reveal_strlit(".");
            assert("."@ =~= seq!['.']);
        }
        match split_at_last(template_name, ".", Ghost('.')) {
            Some((folder, _)) => {
                path.append(folder);
                path.append("/");
            },
            None => {
                return None;
            },
        }
    }
    path.append(table_name);
    path.append(suffix);
    Some(path)
}

} // verus!
