use vstd::prelude::*;

use crate::config::{string_views, Config};
use crate::search::{matching_lines, matching_lines_folded, search, search_case_insensitive};
use crate::text::views;

verus! {

/// The flag that asks for a file's lines.
pub const READ_FILE_FLAG: &'static str = "read-file";

/// The flag that asks whether a file exists.
pub const CHECK_FILE_FLAG: &'static str = "check-file";

/// The flag that asks for the lines of a file that contain the query.
pub const SEARCH_FILE_FLAG: &'static str = "search-file";

/// Printed when reading or checking a file is asked for with a wrong number of
/// plain arguments.
pub const NO_FILE_TO_READ: &'static str = "No file to read";

/// Printed when no known flag is given.
pub const NOT_A_VALID_FLAG: &'static str = "Not a valid flag";

/// The one thing an invocation does.
#[derive(Debug)]
pub enum Action {
    /// Read the file and print its lines.
    PrintFile { path: String },
    /// Print whether the file exists, without reading it.
    CheckFile { path: String },
    /// Read the file and print the lines that contain the query.
    Search { path: String, query: String, case_sensitive: bool },
    /// Print `NO_FILE_TO_READ`.
    NoFileToRead,
    /// Print `NOT_A_VALID_FLAG`.
    NotAValidFlag,
    /// Do nothing: a search asked for with a wrong number of plain arguments.
    Nothing,
}

/// The configuration holds the flag `name`.
pub open spec fn names_flag(c: &Config, name: Seq<char>) -> bool {
    string_views(c.flags@).contains(name)
}

/// Whether `flags` holds `name`.
fn holds_flag(flags: &Vec<String>, name: &str) -> (r: bool)
    ensures
        r == string_views(flags@).contains(name@),
{
    let target = String::from_str(name);
    let mut i: usize = 0;
    while i < flags.len()
        invariant
            i <= flags@.len(),
            target@ == name@,
            forall|k: int| 0 <= k < i ==> flags@[k]@ != name@,
        decreases flags.len() - i,
    {
        if flags[i] == target {
            assert(string_views(flags@)[i as int] == name@);
            return true;
        }
        i = i + 1;
    }
    assert forall|k: int| 0 <= k < string_views(flags@).len() implies string_views(flags@)[k]
        != name@ by {
        assert(flags@[k]@ != name@);
    }
    false
}

/// Decides what the invocation does. Reading a file comes first, then checking
/// one, then searching one; each wants its own number of plain arguments.
pub fn dispatch(config: &Config) -> (r: Action)
    ensures
        names_flag(config, READ_FILE_FLAG@) ==> if config.non_flags@.len() == 1 {
            r matches Action::PrintFile { path } && path@ == config.filename@
        } else {
            r is NoFileToRead
        },
        !names_flag(config, READ_FILE_FLAG@) && names_flag(config, CHECK_FILE_FLAG@) ==> if config.non_flags@.len() == 1 {
            r matches Action::CheckFile { path } && path@ == config.filename@
        } else {
            r is NoFileToRead
        },
        !names_flag(config, READ_FILE_FLAG@) && !names_flag(config, CHECK_FILE_FLAG@)
            && names_flag(config, SEARCH_FILE_FLAG@) ==> if config.non_flags@.len() == 2 {
            r matches Action::Search { path, query, case_sensitive } && path@ == config.filename@
                && query@ == config.query@ && case_sensitive == config.case_sensitive
        } else {
            r is Nothing
        },
        !names_flag(config, READ_FILE_FLAG@) && !names_flag(config, CHECK_FILE_FLAG@)
            && !names_flag(config, SEARCH_FILE_FLAG@) ==> r is NotAValidFlag,
{
    if holds_flag(&config.flags, READ_FILE_FLAG) {
        if config.non_flags.len() == 1 {
            Action::PrintFile { path: config.filename.clone() }
        } else {
            Action::NoFileToRead
        }
    } else if holds_flag(&config.flags, CHECK_FILE_FLAG) {
        if config.non_flags.len() == 1 {
            Action::CheckFile { path: config.filename.clone() }
        } else {
            Action::NoFileToRead
        }
    } else if holds_flag(&config.flags, SEARCH_FILE_FLAG) {
        if config.non_flags.len() == 2 {
            Action::Search {
                path: config.filename.clone(),
                query: config.query.clone(),
                case_sensitive: config.case_sensitive,
            }
        } else {
            Action::Nothing
        }
    } else {
        Action::NotAValidFlag
    }
}

/// The sentence that tells whether the file at `path` exists.
pub fn existence_message(path: &str, exists: bool) -> (r: String)
    ensures
        r@ == "File "@ + path@ + (if exists {
            " does exist"@
        } else {
            " doesn't exist"@
        }),
{
    let head = String::from_str("File ").concat(path);
    if exists {
        head.concat(" does exist")
    } else {
        head.concat(" doesn't exist")
    }
}

/// The sentence printed when no line matches `query`.
pub fn no_match_message(query: &str) -> (r: String)
    ensures
        r@ == "Couldn't find any matching text '"@ + query@ + "'"@,
{
    String::from_str("Couldn't find any matching text '").concat(query).concat("'")
}

/// What a search prints: the matching lines in order, or, when there is none,
/// the sentence that says so.
pub fn search_report(query: &str, contents: &str, case_sensitive: bool) -> (r: Vec<String>)
    ensures
        ({
            let found = if case_sensitive {
                matching_lines(query@, contents@)
            } else {
                matching_lines_folded(query@, contents@)
            };
            string_views(r@) == if found.len() > 0 {
                found
            } else {
                seq!["Couldn't find any matching text '"@ + query@ + "'"@]
            }
        }),
{
    let found = if case_sensitive {
        search(query, contents)
    } else {
        search_case_insensitive(query, contents)
    };
    let mut out: Vec<String> = Vec::new();
    if found.len() == 0 {
        out.push(no_match_message(query));
        assert(string_views(out@) =~= seq![out@[0]@]);
        return out;
    }
    let mut i: usize = 0;
    while i < found.len()
        invariant
            i <= found@.len(),
            string_views(out@) == views(found@).take(i as int),
        decreases found.len() - i,
    {
        let line = String::from_str(found[i]);
        assert(views(found@).take(i + 1) =~= views(found@).take(i as int).push(found@[i as int]@));
        assert(string_views(out@.push(line)) =~= string_views(out@).push(line@));
        out.push(line);
        i = i + 1;
    }
    assert(views(found@).take(i as int) =~= views(found@));
    out
}

} // verus!
