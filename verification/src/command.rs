//! Running the programs that clicks ask for: which program a configured command
//! line names, and why one cannot be started.

use crate::config::path::{self, join_below};
use crate::probe;
use crate::text;
use crate::widget::Command;
use vstd::prelude::*;
use vstd::string::StrSliceExecFns;
use vstd::string::StringExecFns;

verus! {

/// The executor has been dropped; no further commands will be run.
#[derive(Debug, Clone, Copy, PartialEq, Eq, Structural)]
pub struct Closed;

impl Closed {
    /// The message for a closed channel.
    pub fn message(&self) -> (message: String)
        ensures
            message@ == "command executor closed; channel receiver was dropped"@,
    {
        "command executor closed; channel receiver was dropped".to_owned()
    }
}

/// The rest of `s` behind the slashes it begins with.
pub open spec fn without_leading_slashes(s: Seq<char>) -> Seq<char>
    decreases s.len(),
{
    if s.len() > 0 && s[0] == '/' {
        without_leading_slashes(s.skip(1))
    } else {
        s
    }
}

fn trim_leading_slashes(s: &str) -> (rest: &str)
    ensures
        rest@ == without_leading_slashes(s@),
{
    let len: usize = s.unicode_len();
    let mut start: usize = 0;
    assert(s@.skip(0) =~= s@);
    while start < len && s.get_char(start) == '/'
        invariant
            start <= len == s@.len(),
            without_leading_slashes(s@) == without_leading_slashes(s@.skip(start as int)),
        decreases len - start,
    {
        assert(s@.skip(start as int)[0] == s@[start as int]);
        assert(s@.skip(start as int).skip(1) =~= s@.skip(start + 1));
        start += 1;
    }
    assert(start < len ==> s@.skip(start as int)[0] == s@[start as int]);
    let rest: &str = s.substring_char(start, len);
    assert(rest@ =~= s@.skip(start as int));
    rest
}

/// `path` with a leading `~` replaced by the home directory: only `~` alone and
/// `~/...` are replaced, and only when there is a home directory.
pub open spec fn tilde_expanded(path: Seq<char>, home: Option<Seq<char>>) -> Seq<char> {
    if path.len() > 0 && path[0] == '~' && (path.len() == 1 || path[1] == '/') && home is Some {
        if path.len() == 1 {
            home->0
        } else {
            path::below(home->0, without_leading_slashes(path.skip(1)))
        }
    } else {
        path
    }
}

/// Expand a leading `~` in `path` to the user's home directory.
///
/// Only a single leading `~` (optionally followed by `/` or end-of-string) is
/// expanded; a `~` mid-path or a `~user` form is taken verbatim. The expansion is
/// a simple textual substitution. Without a home directory the path is taken as
/// it is.
pub fn expand_tilde(path: &str, home: Option<&str>) -> (expanded: String)
    ensures
        expanded@ == tilde_expanded(path@, text::optional_str(home)),
{
    let len: usize = path.unicode_len();
    if len == 0 || path.get_char(0) != '~' {
        return path.to_owned();
    }
    if len > 1 && path.get_char(1) != '/' {
        // A `~user` form is left verbatim: only `~` and `~/...` expand.
        return path.to_owned();
    }
    match home {
        Some(home) => if len == 1 {
            home.to_owned()
        } else {
            let rest: &str = path.substring_char(1, len);
            assert(rest@ =~= path@.skip(1));
            join_below(home, trim_leading_slashes(rest))
        },
        None => path.to_owned(),
    }
}

/// Whether a path starts at the root.
pub open spec fn is_rooted(path: Seq<char>) -> bool {
    path.len() > 0 && path[0] == '/'
}

/// Whether a path starts at the root.
pub fn is_absolute(path: &str) -> (rooted: bool)
    ensures
        rooted == is_rooted(path@),
{
    path.unicode_len() > 0 && path.get_char(0) == '/'
}

/// Whether a program name is looked up in `PATH`: it names no directory.
pub open spec fn is_bare(name: Seq<char>) -> bool {
    name.len() > 0 && !name.contains('/')
}

/// Whether a program name is looked up in `PATH`: it names no directory.
pub fn is_bare_name(name: &str) -> (bare: bool)
    ensures
        bare == is_bare(name@),
{
    !name.is_empty() && !text::contains_char(name, '/')
}

/// What is known of a file that exists.
#[derive(Debug, Clone, Copy, PartialEq, Eq, Structural)]
pub struct FileFacts {
    /// Whether it is a directory.
    pub is_dir: bool,
    /// Its permission bits.
    pub mode: u32,
}

/// Why an absolute path cannot be run, given what is known of the file or the
/// error of looking.
pub open spec fn preflight_refusal(path: Seq<char>, facts: Result<FileFacts, Seq<char>>) -> Option<
    Seq<char>,
> {
    match facts {
        Ok(facts) => if facts.is_dir {
            Some(path + " is a directory"@)
        } else if facts.mode & 0o111 == 0 {
            Some(path + " is not executable (chmod +x)"@)
        } else {
            None
        },
        Err(error) => Some(path + ": "@ + error),
    }
}

/// The text of an error.
pub open spec fn error_text<T>(result: Result<T, String>) -> Result<T, Seq<char>> {
    match result {
        Ok(value) => Ok(value),
        Err(error) => Err(error@),
    }
}

/// Soft preflight for absolute on-click paths before spawn, given what looking at
/// the file found.
///
/// Bare `PATH` names and relative paths are left to the lookup. Absolute paths
/// get a clear error when the file is missing, a directory, or not executable.
pub fn preflight_on_click(path: &str, facts: Result<FileFacts, String>) -> (result: Result<
    (),
    String,
>)
    ensures
        match result {
            Ok(_) => !is_rooted(path@) || preflight_refusal(path@, error_text(facts)) is None,
            Err(message) => is_rooted(path@) && preflight_refusal(path@, error_text(facts))
                == Some(message@),
        },
{
    if !is_absolute(path) {
        return Ok(());
    }
    match facts {
        Ok(facts) => {
            if facts.is_dir {
                return Err(text::joined(path, " is a directory"));
            }
            // Any execute bit is enough; the kernel still enforces the real check
            // at exec time for the running user.
            if facts.mode & 0o111 == 0 {
                return Err(text::joined(path, " is not executable (chmod +x)"));
            }
            Ok(())
        },
        Err(error) => {
            let mut message: String = text::joined(path, ": ");
            message.append(error.as_str());
            Err(message)
        },
    }
}

/// How a finished child is described: by its exit code, or, if a signal ended
/// it, by the status in words.
pub open spec fn exit_words(code: Option<i32>, status: Seq<char>) -> Seq<char> {
    match code {
        Some(code) => "exit status "@ + text::signed_decimal_of(code as int),
        None => "terminated by signal ("@ + status + ")"@,
    }
}

/// Format a finished child for logs: exit code or signal termination.
pub fn format_exit_status(code: Option<i32>, status: &str) -> (words: String)
    ensures
        words@ == exit_words(code, status@),
{
    match code {
        Some(code) => text::joined("exit status ", text::signed_decimal(code as i64).as_str()),
        None => {
            let mut words: String = text::joined("terminated by signal (", status);
            words.append(")");
            words
        },
    }
}

/// The character that ends each word of a list of words, and begins the list.
pub const WORD_END: char = '\u{0}';

/// The words of a list one after another, each ended by a character that no argument of
/// a program can hold.
pub open spec fn sealed(words: Seq<Seq<char>>) -> Seq<char>
    decreases words.len(),
{
    if words.len() == 0 {
        seq![]
    } else {
        words[0] + seq![WORD_END] + sealed(words.skip(1))
    }
}

/// The words that were put one after another.
pub open spec fn unsealed(line: Seq<char>) -> Seq<Seq<char>>
    decreases line.len(),
{
    proof {
        text::lemma_after_first(line, WORD_END);
    }
    match (text::before_first(line, WORD_END), text::after_first(line, WORD_END)) {
        (Some(word), Some(rest)) => seq![word] + unsealed(rest),
        _ => if line.len() == 0 {
            seq![]
        } else {
            seq![line]
        },
    }
}

/// Whether a command line was made of a list.
pub open spec fn is_list_line(line: Seq<char>) -> bool {
    line.len() > 0 && line[0] == WORD_END
}

/// The command line of a list of words.
pub open spec fn list_line(words: Seq<Seq<char>>) -> Seq<char> {
    seq![WORD_END] + sealed(words)
}

/// The command line of a text: the text, behind a blank if it would look like a list.
pub open spec fn text_line(line: Seq<char>) -> Seq<char> {
    if is_list_line(line) {
        seq![' '] + line
    } else {
        line
    }
}

/// The words of a command line: those of the list it was made of, or else those
/// between its white space.
pub open spec fn line_words(line: Seq<char>) -> Seq<Seq<char>> {
    if is_list_line(line) {
        unsealed(line.skip(1))
    } else {
        text::words_of(line)
    }
}

/// Whether no word holds the character that ends words.
pub open spec fn can_be_sealed(words: Seq<Seq<char>>) -> bool {
    forall|i: int| 0 <= i < words.len() ==> !(#[trigger] words[i]).contains(WORD_END)
}

/// The command line of a list of words, a program and its arguments. There is none
/// when a word holds the character that ends words: no program can be given it.
pub fn line_of(words: &Vec<String>) -> (line: Option<String>)
    ensures
        match line {
            Some(line) => can_be_sealed(text::list(words@)) && line@ == list_line(
                text::list(words@),
            ),
            None => !can_be_sealed(text::list(words@)),
        },
{
    let ghost all = text::list(words@);
    let mut line: String = String::new();
    line.push(WORD_END);
    let mut i: usize = 0;
    assert(all.skip(0) =~= all);
    assert(line@ =~= seq![WORD_END]);
    while i < words.len()
        invariant
            i <= words@.len(),
            all == text::list(words@),
            line@ + sealed(all.skip(i as int)) == list_line(all),
            forall|k: int| 0 <= k < i ==> !(#[trigger] all[k]).contains(WORD_END),
        decreases words@.len() - i,
    {
        let word: &str = words[i].as_str();
        let ghost before = line@;
        assert(all[i as int] == word@);
        if text::contains_char(word, WORD_END) {
            return None;
        }
        line.append(word);
        line.push(WORD_END);
        assert(all.skip(i as int)[0] == word@);
        assert(all.skip(i as int).skip(1) =~= all.skip(i + 1));
        assert(line@ + sealed(all.skip(i + 1)) =~= before + sealed(all.skip(i as int)));
        i += 1;
    }
    assert(line@ + sealed(all.skip(i as int)) =~= line@);
    Some(line)
}

/// The command line of a text that names a program and its arguments, parted by white
/// space. Every character of the text stays in its word: one that no program can be
/// given makes the start fail, as it does in a path.
pub fn line_of_text(line: &str) -> (result: String)
    ensures
        result@ == text_line(line@),
{
    if starts_list(line) {
        let result: String = text::joined(" ", line);
        proof {
            reveal_strlit(" ");
        }
        assert(result@ =~= text_line(line@));
        result
    } else {
        line.to_owned()
    }
}

fn starts_list(line: &str) -> (yes: bool)
    ensures
        yes == is_list_line(line@),
{
    line.unicode_len() > 0 && line.get_char(0) == WORD_END
}

fn unseal(line: &str) -> (words: Vec<String>)
    ensures
        text::list(words@) == unsealed(line@),
{
    let mut words: Vec<String> = Vec::new();
    let mut rest: &str = line;
    assert(text::list(words@) + unsealed(rest@) =~= unsealed(line@));
    loop
        invariant
            text::list(words@) + unsealed(rest@) == unsealed(line@),
        decreases rest@.len(),
    {
        proof {
            text::lemma_after_first(rest@, WORD_END);
        }
        let ghost before = words@;
        let ghost left = rest@;
        match text::split_at_first(rest, WORD_END) {
            Some((word, behind)) => {
                words.push(word.to_owned());
                rest = behind;
                assert(text::list(words@) =~= text::list(before).push(word@));
                assert(text::list(words@) + unsealed(rest@) =~= text::list(before) + unsealed(left));
            },
            None => {
                if !rest.is_empty() {
                    words.push(rest.to_owned());
                    assert(text::list(words@) =~= text::list(before) + unsealed(left));
                } else {
                    assert(text::list(words@) =~= text::list(before) + unsealed(left));
                }
                return words;
            },
        }
    }
}

fn split_line(line: &str) -> (words: Vec<String>)
    ensures
        text::list(words@) == line_words(line@),
{
    if starts_list(line) {
        let sealed: &str = line.substring_char(1, line.unicode_len());
        assert(sealed@ =~= line@.skip(1));
        unseal(sealed)
    } else {
        text::words(line)
    }
}

/// A command line that was made of a list has the words of the list, whatever blanks
/// they hold.
pub proof fn lemma_a_list_keeps_its_words(words: Seq<Seq<char>>)
    requires
        can_be_sealed(words),
    ensures
        line_words(list_line(words)) == words,
{
    lemma_unsealed(words);
    assert(list_line(words).skip(1) =~= sealed(words));
}

/// A command line that was made of a text has the words of the text, whatever
/// characters they hold.
pub proof fn lemma_a_text_keeps_its_words(line: Seq<char>)
    ensures
        line_words(text_line(line)) == text::words_of(line),
{
    if is_list_line(line) {
        assert((seq![' '] + line).skip(1) =~= line);
    }
}

proof fn lemma_unsealed(words: Seq<Seq<char>>)
    requires
        can_be_sealed(words),
    ensures
        unsealed(sealed(words)) == words,
    decreases words.len(),
{
    if words.len() > 0 {
        let word = words[0];
        let rest = sealed(words.skip(1));
        let line = sealed(words);
        let n = word.len() as int;
        assert(line.take(n) =~= word);
        assert(line[n] == WORD_END);
        assert(line.skip(n + 1) =~= rest);
        text::lemma_around_first(line, WORD_END, n);
        assert forall|i: int| 0 <= i < words.skip(1).len() implies !(
        #[trigger] words.skip(1)[i]).contains(WORD_END) by {
            assert(words.skip(1)[i] == words[i + 1]);
        }
        lemma_unsealed(words.skip(1));
        assert(seq![word] + words.skip(1) =~= words);
    }
}

/// A program to start, with its arguments.
#[derive(Debug, PartialEq, Eq)]
pub struct Launch {
    /// The program: a path, or a bare name to look up.
    pub program: String,
    /// Its arguments.
    pub arguments: Vec<String>,
}

/// Split a configured command line into a program and its arguments, expanding a
/// leading `~` of the program. A line without words names nothing.
pub fn launch_of(line: &str, home: Option<&str>) -> (launch: Option<Launch>)
    ensures
        ({
            let words = line_words(line@);
            match launch {
                Some(launch) => {
                    &&& words.len() > 0
                    &&& launch.program@ == tilde_expanded(words[0], text::optional_str(home))
                    &&& text::list(launch.arguments@) == words.skip(1)
                },
                None => words.len() == 0,
            }
        }),
{
    let words: Vec<String> = split_line(line);
    if words.len() == 0 {
        return None;
    }
    let program: String = expand_tilde(words[0].as_str(), home);
    let mut arguments: Vec<String> = Vec::new();
    let mut i: usize = 1;
    while i < words.len()
        invariant
            1 <= i <= words@.len(),
            arguments@ == words@.subrange(1, i as int),
        decreases words@.len() - i,
    {
        arguments.push(words[i].clone());
        assert(arguments@ =~= words@.subrange(1, i + 1));
        i += 1;
    }
    assert(text::list(arguments@) =~= text::list(words@).skip(1));
    assert(words@[0]@ == text::list(words@)[0]);
    Some(Launch { program, arguments })
}

/// Find a bare program name in the directories of `PATH`: the first directory
/// that holds such a program wins.
pub fn find_in_path<F: Fn(&str) -> bool>(name: &str, dirs: &Vec<String>, is_program: F) -> (found:
    Option<String>)
    requires
        probe::askable(is_program),
    ensures
        match found {
            Some(path) => exists|i: int|
                0 <= i < dirs@.len() && path@ == path::below((#[trigger] dirs@[i])@, name@)
                    && probe::answers(is_program, path@, true) && forall|j: int|
                    0 <= j < i ==> probe::answers(
                        is_program,
                        path::below((#[trigger] dirs@[j])@, name@),
                        false,
                    ),
            None => forall|j: int|
                0 <= j < dirs@.len() ==> probe::answers(
                    is_program,
                    path::below((#[trigger] dirs@[j])@, name@),
                    false,
                ),
        },
{
    let mut i: usize = 0;
    while i < dirs.len()
        invariant
            i <= dirs@.len(),
            probe::askable(is_program),
            forall|j: int|
                0 <= j < i ==> probe::answers(
                    is_program,
                    path::below((#[trigger] dirs@[j])@, name@),
                    false,
                ),
        decreases dirs@.len() - i,
    {
        let path: String = join_below(dirs[i].as_str(), name);
        if probe::ask(&is_program, path.as_str()) {
            assert(path@ == path::below(dirs@[i as int]@, name@));
            return Some(path);
        }
        i += 1;
    }
    None
}

/// Say where the program of a launch is: a bare name is looked up in the directories
/// of `PATH`, and missing there is an error. A path stands for itself.
pub fn located<F: Fn(&str) -> bool>(launch: Launch, dirs: &Vec<String>, is_program: F) -> (located:
    Result<Launch, String>)
    requires
        probe::askable(is_program),
    ensures
        match located {
            Ok(found) => {
                &&& found.arguments == launch.arguments
                &&& if is_bare(launch.program@) {
                    exists|i: int|
                        0 <= i < dirs@.len() && found.program@ == path::below(
                            (#[trigger] dirs@[i])@,
                            launch.program@,
                        ) && probe::answers(is_program, found.program@, true) && forall|j: int|
                            0 <= j < i ==> probe::answers(
                                is_program,
                                path::below((#[trigger] dirs@[j])@, launch.program@),
                                false,
                            )
                } else {
                    found.program == launch.program
                }
            },
            Err(message) => {
                &&& is_bare(launch.program@)
                &&& message@ == launch.program@ + " not found in PATH"@
                &&& forall|j: int|
                    0 <= j < dirs@.len() ==> probe::answers(
                        is_program,
                        path::below((#[trigger] dirs@[j])@, launch.program@),
                        false,
                    )
            },
        },
{
    if !is_bare_name(launch.program.as_str()) {
        return Ok(launch);
    }
    match find_in_path(launch.program.as_str(), dirs, is_program) {
        Some(program) => Ok(Launch { program, arguments: launch.arguments }),
        None => Err(text::joined(launch.program.as_str(), " not found in PATH")),
    }
}

/// Resolve a program: a bare name to where `PATH` has it, if it does, anything
/// else to itself with a leading `~` expanded.
pub fn resolve_program<F: Fn(&str) -> bool>(
    program: &str,
    home: Option<&str>,
    dirs: &Vec<String>,
    is_program: F,
) -> (resolved: String)
    requires
        probe::askable(is_program),
    ensures
        ({
            let expanded = tilde_expanded(program@, text::optional_str(home));
            if is_bare(expanded) {
                (exists|i: int|
                    0 <= i < dirs@.len() && resolved@ == path::below((#[trigger] dirs@[i])@, expanded)
                        && probe::answers(is_program, resolved@, true) && forall|j: int|
                        0 <= j < i ==> probe::answers(
                            is_program,
                            path::below((#[trigger] dirs@[j])@, expanded),
                            false,
                        )) || (resolved@ == expanded && forall|j: int|
                    0 <= j < dirs@.len() ==> probe::answers(
                        is_program,
                        path::below((#[trigger] dirs@[j])@, expanded),
                        false,
                    ))
            } else {
                resolved@ == expanded
            }
        }),
{
    let expanded: String = expand_tilde(program, home);
    if is_bare_name(expanded.as_str()) {
        match find_in_path(expanded.as_str(), dirs, is_program) {
            Some(found) => found,
            None => expanded,
        }
    } else {
        expanded
    }
}

/// The command line that a command asks to run; commands for other executors are
/// ignored.
pub fn program_of(command: &Command) -> (line: Option<&String>)
    ensures
        match *command {
            Command::RunProgram(path) => line == Some(&path),
            _ => line is None,
        },
{
    match command {
        Command::RunProgram(line) => Some(line),
        _ => None,
    }
}

/// Only a leading `~` that stands alone or before a slash expands: an absolute
/// path, a `~` within a path and a `~user` form stay as they are.
pub proof fn lemma_tilde_is_expanded_only_in_front(path: Seq<char>, home: Option<Seq<char>>)
    requires
        path.len() == 0 || path[0] != '~' || (path.len() > 1 && path[1] != '/') || home is None,
    ensures
        tilde_expanded(path, home) == path,
{
}

/// Expanding what was expanded changes nothing, below an absolute home directory.
pub proof fn lemma_expansion_settles(path: Seq<char>, home: Seq<char>)
    requires
        is_rooted(home),
    ensures
        tilde_expanded(tilde_expanded(path, Some(home)), Some(home)) == tilde_expanded(
            path,
            Some(home),
        ),
{
}

/// A tilde in front of a path stands for the home directory: alone, it is that directory,
/// and before a slash the rest follows below it. No other path changes.
pub proof fn lemma_a_tilde_stands_for_the_home_directory(
    path: &str,
    home: Option<&str>,
    expanded: String,
    rest: Seq<char>,
)
    requires
        call_ensures(expand_tilde, (path, home), expanded),
    ensures
        path@ == seq!['~'] && home is Some ==> expanded@ == home->0@,
        path@ == seq!['~', '/'] + rest && home is Some && rest.len() > 0 && rest[0] != '/'
            && home->0@.len() > 0 && home->0@.last() != '/' ==> expanded@ == home->0@ + seq!['/']
            + rest,
        path@ == seq!['~', '/'] + rest && home is Some && rest.len() > 0 && rest[0] != '/'
            && home->0@.len() > 0 && home->0@.last() == '/' ==> expanded@ == home->0@ + rest,
        path@.len() == 0 || path@[0] != '~' || home is None ==> expanded@ == path@,
        path@.len() > 1 && path@[0] == '~' && path@[1] != '/' ==> expanded@ == path@,
{
    if path@ == seq!['~'] {
        assert(path@.len() == 1 && path@[0] == '~');
    }
    if path@ == seq!['~', '/'] + rest && rest.len() > 0 && rest[0] != '/' {
        let tail = path@.skip(1);
        assert(path@[0] == '~' && path@[1] == '/');
        assert(tail[0] == '/');
        assert(tail.skip(1) =~= rest);
        assert(without_leading_slashes(rest) == rest);
        assert(without_leading_slashes(tail) == rest);
    }
}

/// A path is absolute exactly when it begins with a slash, and a program is looked up
/// exactly when its name holds none.
pub proof fn lemma_a_slash_makes_a_path(name: &str, rooted: bool, bare: bool)
    requires
        call_ensures(is_absolute, (name,), rooted),
        call_ensures(is_bare_name, (name,), bare),
    ensures
        rooted <==> name@.len() > 0 && name@[0] == '/',
        bare <==> name@.len() > 0 && forall|i: int|
            0 <= i < name@.len() ==> #[trigger] name@[i] != '/',
        rooted ==> !bare,
{
    if name@.len() > 0 && name@[0] == '/' {
        assert(name@.contains(name@[0]));
    }
    if name@.contains('/') {
        let i = choose|i: int| 0 <= i < name@.len() && name@[i] == '/';
        assert(name@[i] == '/');
    }
}

/// An absolute path can be run exactly when it is there, is no directory, and may be
/// executed by someone; what stands in the way is said. Other paths are not looked at.
pub proof fn lemma_what_cannot_run_is_refused(
    path: &str,
    facts: Result<FileFacts, String>,
    result: Result<(), String>,
)
    requires
        call_ensures(preflight_on_click, (path, facts), result),
    ensures
        path@.len() == 0 || path@[0] != '/' ==> result is Ok,
        path@.len() > 0 && path@[0] == '/' ==> {
            &&& result is Ok <==> facts is Ok && !facts->Ok_0.is_dir && facts->Ok_0.mode & 0o111
                != 0
            &&& facts is Err ==> result->Err_0@ == path@ + ": "@ + facts->Err_0@
            &&& facts is Ok && facts->Ok_0.is_dir ==> result->Err_0@ == path@
                + " is a directory"@
            &&& facts is Ok && !facts->Ok_0.is_dir && facts->Ok_0.mode & 0o111 == 0
                ==> result->Err_0@ == path@ + " is not executable (chmod +x)"@
        },
{
}

/// A finished program is told by its exit code, and by its signal where it has none.
pub proof fn lemma_an_exit_is_told_by_its_code(code: Option<i32>, status: &str, words: String)
    requires
        call_ensures(format_exit_status, (code, status), words),
    ensures
        code is Some ==> words@ == "exit status "@ + text::signed_decimal_of(code->0 as int),
        code is None ==> words@ == "terminated by signal ("@ + status@ + ")"@,
{
}

/// The first word of a text is its program and the others are its arguments, in order.
pub proof fn lemma_the_first_word_is_the_program(
    given: &str,
    line: String,
    line_str: &str,
    home: Option<&str>,
    launch: Option<Launch>,
    parts: Vec<String>,
    i: int,
)
    requires
        call_ensures(line_of_text, (given,), line),
        line_str@ == line@,
        call_ensures(launch_of, (line_str, home), launch),
        call_ensures(text::words, (given,), parts),
    ensures
        launch is Some <==> parts@.len() > 0,
        launch is Some ==> launch->0.arguments@.len() == parts@.len() - 1,
        launch is Some && 1 <= i < parts@.len() ==> launch->0.arguments@[i - 1]@ == parts@[i]@,
        launch is Some && (parts@[0]@.len() == 0 || parts@[0]@[0] != '~') ==> launch->0.program@
            == parts@[0]@,
{
    lemma_a_text_keeps_its_words(given@);
    let words = text::words_of(given@);
    assert(text::list(parts@) == words);
    assert(words.len() == parts@.len());
    assert(forall|k: int| 0 <= k < parts@.len() ==> #[trigger] words[k] == parts@[k]@);
    if launch is Some {
        let arguments = text::list(launch->0.arguments@);
        assert(arguments == words.skip(1));
        assert(arguments.len() == launch->0.arguments@.len());
        if 1 <= i < parts@.len() {
            assert(arguments[i - 1] == launch->0.arguments@[i - 1]@);
            assert(words.skip(1)[i - 1] == words[i]);
        }
    }
}

/// A list that can be given to a program is launched as it stands: its first word is the
/// program and each other one an argument, blanks included.
pub proof fn lemma_a_list_is_launched_as_it_stands(
    words: Vec<String>,
    line: Option<String>,
    line_str: &str,
    home: Option<&str>,
    launch: Option<Launch>,
    i: int,
)
    requires
        call_ensures(line_of, (&words,), line),
        line is Some,
        line_str@ == line->0@,
        call_ensures(launch_of, (line_str, home), launch),
    ensures
        launch is Some <==> words@.len() > 0,
        launch is Some ==> launch->0.arguments@.len() == words@.len() - 1,
        launch is Some && 1 <= i < words@.len() ==> launch->0.arguments@[i - 1]@ == words@[i]@,
        launch is Some && (words@[0]@.len() == 0 || words@[0]@[0] != '~') ==> launch->0.program@
            == words@[0]@,
{
    let given = text::list(words@);
    lemma_a_list_keeps_its_words(given);
    assert(given.len() == words@.len());
    assert(forall|k: int| 0 <= k < words@.len() ==> #[trigger] given[k] == words@[k]@);
    if launch is Some {
        let arguments = text::list(launch->0.arguments@);
        assert(arguments == given.skip(1));
        assert(arguments.len() == launch->0.arguments@.len());
        if 1 <= i < words@.len() {
            assert(arguments[i - 1] == launch->0.arguments@[i - 1]@);
            assert(given.skip(1)[i - 1] == given[i]);
        }
    }
}

/// A list with a word that no program can be given has no command line, and every other
/// list has one.
pub proof fn lemma_a_list_without_a_line_has_such_a_word(words: Vec<String>, line: Option<String>)
    requires
        call_ensures(line_of, (&words,), line),
    ensures
        line is None <==> exists|i: int|
            0 <= i < words@.len() && (#[trigger] words@[i])@.contains('\u{0}'),
{
    let given = text::list(words@);
    assert(forall|k: int| 0 <= k < words@.len() ==> #[trigger] given[k] == words@[k]@);
    if line is None {
        let i = choose|i: int| 0 <= i < given.len() && (#[trigger] given[i]).contains(WORD_END);
        assert(words@[i]@.contains('\u{0}'));
    }
    if exists|i: int| 0 <= i < words@.len() && (#[trigger] words@[i])@.contains('\u{0}') {
        let i = choose|i: int| 0 <= i < words@.len() && (#[trigger] words@[i])@.contains('\u{0}');
        assert(given[i].contains(WORD_END));
    }
}

/// Only the command that runs a program names one.
pub proof fn lemma_only_one_command_runs_a_program(command: Command, line: Option<&String>)
    requires
        call_ensures(program_of, (&command,), line),
    ensures
        line is Some <==> command is RunProgram,
        command matches Command::RunProgram(path) ==> line->0@ == path@,
{
}

/// A program is found in the first directory that has it, under its name there; it is not
/// found only where every directory was asked and none has it.
pub proof fn lemma_the_first_directory_wins<F: Fn(&str) -> bool>(
    name: &str,
    dirs: Vec<String>,
    is_program: F,
    found: Option<String>,
)
    requires
        call_ensures(find_in_path::<F>, (name, &dirs, is_program), found),
        forall|i: int|
            0 <= i < dirs@.len() ==> (#[trigger] dirs@[i])@.len() > 0 && dirs@[i]@.last() != '/',
    ensures
        found is Some ==> probe::answers(is_program, found->0@, true) && exists|i: int|
            0 <= i < dirs@.len() && found->0@ == (#[trigger] dirs@[i])@ + seq!['/'] + name@,
        dirs@.len() > 0 && !probe::answers(is_program, dirs@[0]@ + seq!['/'] + name@, false)
            ==> found is Some && found->0@ == dirs@[0]@ + seq!['/'] + name@,
        dirs@.len() > 1 && !probe::answers(is_program, dirs@[0]@ + seq!['/'] + name@, true)
            && !probe::answers(is_program, dirs@[1]@ + seq!['/'] + name@, false) ==> found is Some
            && found->0@ == dirs@[1]@ + seq!['/'] + name@,
        (forall|i: int|
            0 <= i < dirs@.len() ==> !probe::answers(
                is_program,
                (#[trigger] dirs@[i])@ + seq!['/'] + name@,
                true,
            )) ==> found is None,
{
    assert(forall|i: int|
        0 <= i < dirs@.len() ==> path::below((#[trigger] dirs@[i])@, name@) == dirs@[i]@ + seq!['/']
            + name@);
    if dirs@.len() > 0 {
        assert(path::below(dirs@[0]@, name@) == dirs@[0]@ + seq!['/'] + name@);
    }
    if dirs@.len() > 1 {
        assert(path::below(dirs@[1]@, name@) == dirs@[1]@ + seq!['/'] + name@);
    }
    if found is Some {
        let i = choose|i: int|
            0 <= i < dirs@.len() && found->0@ == path::below((#[trigger] dirs@[i])@, name@)
                && probe::answers(is_program, found->0@, true) && forall|j: int|
                0 <= j < i ==> probe::answers(
                    is_program,
                    path::below((#[trigger] dirs@[j])@, name@),
                    false,
                );
        assert(found->0@ == dirs@[i]@ + seq!['/'] + name@);
        if i > 0 {
            assert(probe::answers(is_program, path::below(dirs@[0]@, name@), false));
        }
        if i > 1 {
            assert(probe::answers(is_program, path::below(dirs@[1]@, name@), false));
        }
    }
}

/// A launch keeps its arguments and a path its program; a bare name that is nowhere is told.
pub proof fn lemma_a_launch_keeps_its_arguments<F: Fn(&str) -> bool>(
    launch: Launch,
    dirs: Vec<String>,
    is_program: F,
    found: Result<Launch, String>,
)
    requires
        call_ensures(located::<F>, (launch, &dirs, is_program), found),
    ensures
        found is Ok ==> found->Ok_0.arguments@ == launch.arguments@,
        launch.program@.contains('/') ==> found is Ok && found->Ok_0.program@ == launch.program@,
        found is Err ==> found->Err_0@ == launch.program@ + " not found in PATH"@,
        launch.program@.len() > 0 && !launch.program@.contains('/') && dirs@.len() == 0
            ==> found is Err,
{
}

} // verus!
