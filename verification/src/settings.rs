//! The settings patcher: a text buffer holding a settings module, and the
//! three edits that can be applied to it.
//!
//! The buffer is modelled by its characters. Every edit is specified by a
//! function from the old text to the new one.

use crate::dict::{
    entries_chars, merge_dict_chars, merged_dict, pair_views, parse_entry_chars, parsed_entry,
    Pairs,
};
use crate::errors::ProjectError;
use crate::literal::{format_chars, formatted_value, quote_chars, quoted};
use crate::pattern::{
    compiles, error_message, escape, escaped, find_first, first_match,
    lemma_spliced_keeps_outside, splice, spliced, text_after, text_before, valid_span,
};
use crate::text::{
    chars_of, contains, contains_chars, extend_chars, replace_all, replaced, same_outside,
    slice_of, string_of,
};
use vstd::prelude::*;
use vstd::string::*;

verus! {

/// One requested change to a settings module.
#[derive(Debug)]
pub enum SettingsModification {
    /// Make the given application appear in the `INSTALLED_APPS` list.
    AddToInstalledApps(String),
    /// Make the variable of the given name hold the given value.
    AddOrUpdateVariable(String, String),
    /// Make the dictionary of the given name hold the given entries.
    AddOrUpdateDict(String, Vec<(String, String)>),
}

/// What a modification asks for.
pub enum Request {
    /// The entry shall appear in the list declared under the name.
    AppendToList(Seq<char>, Seq<char>),
    /// The variable of the name shall hold the value.
    SetVariable(Seq<char>, Seq<char>),
    /// The dictionary of the name shall hold the entries.
    MergeDictionary(Seq<char>, Pairs),
}

impl View for SettingsModification {
    type V = Request;

    open spec fn view(&self) -> Request {
        match *self {
            SettingsModification::AddToInstalledApps(app) => Request::AppendToList(
                "INSTALLED_APPS"@,
                app@,
            ),
            SettingsModification::AddOrUpdateVariable(name, value) => Request::SetVariable(
                name@,
                value@,
            ),
            SettingsModification::AddOrUpdateDict(name, entries) => Request::MergeDictionary(
                name@,
                pair_views(entries@),
            ),
        }
    }
}

/// What the modifications of `ms` ask for, in order.
pub open spec fn requests_of(ms: Seq<SettingsModification>) -> Seq<Request> {
    Seq::new(ms.len(), |i: int| ms[i]@)
}

/// The text that opens the list declaration of the given name.
pub open spec fn list_opening(name: Seq<char>) -> Seq<char> {
    name + " = ["@
}

/// The opening of a list declaration followed by a new first entry.
pub open spec fn list_opening_with(name: Seq<char>, entry: Seq<char>) -> Seq<char> {
    list_opening(name) + "\n    "@ + quoted(entry) + ","@
}

/// The settings text after `entry` has been appended to the list `name`:
/// unchanged where the quoted entry stands anywhere in the text, else with
/// the entry inserted after every opening of the list.
pub open spec fn appended_to_list(content: Seq<char>, name: Seq<char>, entry: Seq<char>) -> Seq<
    char,
> {
    if contains(content, quoted(entry)) {
        content
    } else {
        replaced(content, list_opening(name), list_opening_with(name, entry))
    }
}

/// The line that gives the variable `name` the value `value`.
pub open spec fn assignment(name: Seq<char>, value: Seq<char>) -> Seq<char> {
    name + " = "@ + formatted_value(value)
}

/// The pattern of a line that assigns to `name`: in multi-line mode, the
/// start of a line, spaces or tabs, the name itself, white space, an equals
/// sign, and the rest of the line.
pub open spec fn variable_pattern(name: Seq<char>) -> Seq<char> {
    "(?m)^[ \\t]*"@ + escaped(name) + "\\s*=.*$"@
}

/// The settings text after the variable `name` has been set to `value`,
/// given where the first line that assigns to `name` was found: that line
/// is replaced by the assignment; where none was found the assignment is
/// appended as a line of its own.
pub open spec fn variable_set(
    content: Seq<char>,
    name: Seq<char>,
    value: Seq<char>,
    found: Option<(usize, usize)>,
) -> Seq<char> {
    match found {
        Some(span) => spliced(content, span, assignment(name, value)),
        None => content + "\n"@ + assignment(name, value) + "\n"@,
    }
}

/// Setting a variable leaves the text outside the replaced line as it is:
/// what stands before the line that was found and what stands after it.
/// Where no line was found, all of the text stays.
pub proof fn lemma_set_variable_keeps_outside(
    content: Seq<char>,
    name: Seq<char>,
    value: Seq<char>,
    found: Option<(usize, usize)>,
)
    requires
        found matches Some(span) ==> valid_span(content, span),
    ensures
        match found {
            Some(span) => same_outside(
                content,
                variable_set(content, name, value, found),
                text_before(content, span.0 as int).len() as int,
                content.len() - text_after(content, span.1 as int).len(),
            ),
            None => same_outside(
                content,
                variable_set(content, name, value, found),
                content.len() as int,
                content.len() as int,
            ),
        },
{
    let after = variable_set(content, name, value, found);
    match found {
        Some(span) => {
            lemma_spliced_keeps_outside(content, span, assignment(name, value));
        },
        None => {
            let n = content.len() as int;
            assert(after.subrange(0, n) =~= content.subrange(0, n));
            assert(after.subrange(after.len() - 0, after.len() as int) =~= content.subrange(n, n));
        },
    }
}

/// The settings text after one request has been met, or `None` where it
/// cannot be met: the name of a variable gave a pattern that does not
/// compile.
pub open spec fn applied(content: Seq<char>, request: Request) -> Option<Seq<char>> {
    match request {
        Request::AppendToList(name, entry) => Some(appended_to_list(content, name, entry)),
        Request::SetVariable(name, value) => {
            if compiles(variable_pattern(name)) {
                Some(
                    variable_set(
                        content,
                        name,
                        value,
                        first_match(variable_pattern(name), content),
                    ),
                )
            } else {
                None
            }
        },
        Request::MergeDictionary(name, entries) => Some(merged_dict(content, name, entries)),
    }
}

/// The settings text after the requests of `requests` from index `i` on
/// have been met, each on what the one before left, or `None` where one of
/// them cannot be met.
pub open spec fn applied_all(content: Seq<char>, requests: Seq<Request>, i: int) -> Option<
    Seq<char>,
>
    decreases requests.len() - i,
{
    if i < 0 || i >= requests.len() {
        Some(content)
    } else {
        match applied(content, requests[i]) {
            Some(next) => applied_all(next, requests, i + 1),
            None => None,
        }
    }
}

/// Whether `e` reports a pattern that did not compile.
pub open spec fn is_pattern_failure(e: ProjectError) -> bool {
    e matches ProjectError::CommandFailed(m) && "Regex error: "@.is_prefix_of(m@)
}

/// The line that gives the variable `name` the value `value`.
pub fn assignment_text(name: &str, value: &str) -> (r: String)
    ensures
        r@ == assignment(name@, value@),
{
    let mut line = chars_of(name);
    extend_chars(&mut line, &chars_of(" = "));
    extend_chars(&mut line, &format_chars(&chars_of(value)));
    string_of(&line)
}

/// The pattern of a line that assigns to `name`.
pub fn variable_pattern_text(name: &str) -> (r: String)
    ensures
        r@ == variable_pattern(name@),
{
    let mut p = String::from_str("(?m)^[ \\t]*");
    p.append(escape(name).as_str());
    p.append("\\s*=.*$");
    p
}

/// The settings text `content` after the variable `name` has been set to
/// `value`, given where the first line that assigns to `name` was found.
pub fn set_variable_at(content: &str, name: &str, value: &str, found: Option<(usize, usize)>) -> (r:
    String)
    requires
        found matches Some(span) ==> valid_span(content@, span),
    ensures
        r@ == variable_set(content@, name@, value@, found),
{
    let line = assignment_text(name, value);
    match found {
        Some(span) => splice(content, span, line.as_str()),
        None => {
            let mut r = String::from_str(content);
            r.append("\n");
            r.append(line.as_str());
            r.append("\n");
            r
        },
    }
}

/// A settings module being patched.
pub struct SettingsModifier {
    content: String,
}

impl View for SettingsModifier {
    type V = Seq<char>;

    closed spec fn view(&self) -> Seq<char> {
        self.content@
    }
}

impl SettingsModifier {
    /// Starts a patch session on the given text.
    pub fn new(content: String) -> (r: Self)
        ensures
            r@ == content@,
    {
        Self { content }
    }

    /// Ends the session and hands the text back.
    pub fn finalize(self) -> (r: String)
        ensures
            r@ == self@,
    {
        self.content
    }

    /// The form in which `value` is written into the settings module.
    pub fn format_value(&self, value: &str) -> (r: String)
        ensures
            r@ == formatted_value(value@),
    {
        string_of(&format_chars(&chars_of(value)))
    }

    /// The key and the value that `line` holds, if it holds a colon.
    pub fn parse_dict_entry(&self, line: &str) -> (r: Option<(String, String)>)
        ensures
            match r {
                Some(e) => parsed_entry(line@) == Some((e.0@, e.1@)),
                None => parsed_entry(line@) is None,
            },
    {
        match parse_entry_chars(&chars_of(line)) {
            Some(e) => Some((string_of(&e.0), string_of(&e.1))),
            None => None,
        }
    }

    /// Makes `entry` appear in the list declared as `name`. Nothing changes
    /// where the quoted entry stands anywhere in the text already, nor where
    /// the text holds no opening of that list.
    pub fn append_to_list(&mut self, name: &str, entry: &str)
        ensures
            final(self)@ == appended_to_list(old(self)@, name@, entry@),
    {
        let content = chars_of(self.content.as_str());
        let literal = quote_chars(&chars_of(entry));
        if !contains_chars(&content, &literal) {
            let mut opening = chars_of(name);
            extend_chars(&mut opening, &chars_of(" = ["));
            let mut with_entry = slice_of(&opening, 0, opening.len());
            assert(with_entry@ == list_opening(name@));
            extend_chars(&mut with_entry, &chars_of("\n    "));
            extend_chars(&mut with_entry, &literal);
            extend_chars(&mut with_entry, &chars_of(","));
            self.content = string_of(&replace_all(&content, &opening, &with_entry));
        }
    }

    /// Makes the application `app_name` appear in `INSTALLED_APPS`.
    pub fn add_to_installed_apps(&mut self, app_name: &str)
        ensures
            final(self)@ == appended_to_list(old(self)@, "INSTALLED_APPS"@, app_name@),
    {
        self.append_to_list("INSTALLED_APPS", app_name)
    }

    /// Makes the variable `name` hold `value`: the first line that assigns
    /// to `name` is replaced, and where there is none the assignment is
    /// appended. Fails, leaving the text as it is, where the name gives a
    /// pattern that does not compile.
    pub fn add_or_update_variable(&mut self, name: &str, value: &str) -> (r: Result<
        (),
        ProjectError,
    >)
        ensures
            r is Ok <==> compiles(variable_pattern(name@)),
            r is Ok ==> final(self)@ == variable_set(
                old(self)@,
                name@,
                value@,
                first_match(variable_pattern(name@), old(self)@),
            ),
            r matches Err(e) ==> final(self)@ == old(self)@ && is_pattern_failure(e),
    {
        let pattern = variable_pattern_text(name);
        match find_first(pattern.as_str(), self.content.as_str()) {
            Ok(found) => {
                self.content = set_variable_at(self.content.as_str(), name, value, found);
                Ok(())
            },
            Err(e) => {
                let mut m = String::from_str("Regex error: ");
                let ghost head = m@;
                m.append(error_message(&e).as_str());
                assert(m@.subrange(0, head.len() as int) =~= head);
                Err(ProjectError::CommandFailed(m))
            },
        }
    }

    /// Merges `entries` into the dictionary `name`: each entry replaces the
    /// value of its key or adds the key, and the keys that `entries` do not
    /// mention stay. Where the text declares no such dictionary, one is
    /// appended. Never fails.
    pub fn add_or_update_dict(&mut self, name: &str, entries: &[(String, String)]) -> (r: Result<
        (),
        ProjectError,
    >)
        ensures
            r is Ok,
            final(self)@ == merged_dict(old(self)@, name@, pair_views(entries@)),
    {
        let content = chars_of(self.content.as_str());
        let merged = merge_dict_chars(&content, &chars_of(name), &entries_chars(entries));
        self.content = string_of(&merged);
        Ok(())
    }

    /// Carries out one modification. Fails, leaving the text as it is,
    /// where the modification cannot be carried out.
    pub fn apply(&mut self, m: &SettingsModification) -> (r: Result<(), ProjectError>)
        ensures
            match applied(old(self)@, m@) {
                Some(t) => r is Ok && final(self)@ == t,
                None => (r matches Err(e) && is_pattern_failure(e)) && final(self)@ == old(self)@,
            },
    {
        match m {
            SettingsModification::AddToInstalledApps(app) => {
                self.add_to_installed_apps(app.as_str());
                Ok(())
            },
            SettingsModification::AddOrUpdateVariable(name, value) => {
                self.add_or_update_variable(name.as_str(), value.as_str())
            },
            SettingsModification::AddOrUpdateDict(name, entries) => {
                self.add_or_update_dict(name.as_str(), entries.as_slice())
            },
        }
    }
}

/// Applies `modifications` to the settings text `content`, in order, each
/// to what the one before left. Fails at the first modification that cannot
/// be carried out.
pub fn modify_settings(content: String, modifications: &[SettingsModification]) -> (r: Result<
    String,
    ProjectError,
>)
    ensures
        match applied_all(content@, requests_of(modifications@), 0) {
            Some(t) => r matches Ok(s) && s@ == t,
            None => r matches Err(e) && is_pattern_failure(e),
        },
{
    let mut modifier = SettingsModifier::new(content);
    let mut i: usize = 0;
    while i < modifications.len()
        invariant
            i <= modifications.len(),
            applied_all(modifier@, requests_of(modifications@), i as int) == applied_all(
                content@,
                requests_of(modifications@),
                0,
            ),
        decreases modifications.len() - i,
    {
        match modifier.apply(&modifications[i]) {
            Ok(()) => {},
            Err(e) => {
                return Err(e);
            },
        }
        i = i + 1;
    }
    Ok(modifier.finalize())
}

} // verus!
