use vstd::prelude::*;

use crate::config::bar_settings::{bar_setting_readable, bars_add, setting_readable};
use crate::config::keybinds::{keybind_error, keybind_read, keybinds_add, lemma_keybind_error};
use crate::config::options::{lemma_option_error_model, option_error_model, options_add};
use crate::config::start_hooks::{hook_error_model, hook_read, lemma_hook_error_model};
use crate::config::workspace_settings::{workspace_add, workspace_add_readable, WorkspaceSettingError};
use crate::config::{default_config, Config, ConfigModel};
use crate::error::{Error, ErrorModel};
use crate::numbers::{parse_u32, parse_uint};
use crate::text::{chars_of, join_strings, join_with, push_char, split_fold};

verus! {

/// Where the line splitter stands after some characters: inside a quoted string or not,
/// after a backslash or not, the word read so far and the words finished so far.
pub struct LineState {
    pub in_str: bool,
    pub in_escape: bool,
    pub buffer: Seq<char>,
    pub list: Seq<Seq<char>>,
}

/// One character of a config line read by the splitter.
///
/// Outside quotes, a space ends a word (unless the word is empty) and `"` starts a quoted
/// string. Inside quotes, `\` marks an escape (and is dropped), an escaped `"` is kept,
/// another `"` ends the string (which becomes a word, even if empty), and anything else is
/// kept. The escape mark stays set until an escaped `"` is read.
pub open spec fn line_step(st: LineState, c: char) -> LineState {
    if !st.in_str {
        if c == '"' {
            LineState { in_str: true, ..st }
        } else if c == ' ' {
            if st.buffer.len() == 0 {
                st
            } else {
                LineState { buffer: seq![], list: st.list.push(st.buffer), ..st }
            }
        } else {
            LineState { buffer: st.buffer.push(c), ..st }
        }
    } else if c == '\\' {
        LineState { in_escape: true, ..st }
    } else if st.in_escape && c == '"' {
        LineState { buffer: st.buffer.push(c), in_escape: false, ..st }
    } else if c == '"' {
        LineState { in_str: false, buffer: seq![], list: st.list.push(st.buffer), ..st }
    } else {
        LineState { buffer: st.buffer.push(c), ..st }
    }
}

/// The splitter's state after the characters of `s`.
pub open spec fn line_fold(s: Seq<char>) -> LineState
    decreases s.len(),
{
    if s.len() == 0 {
        LineState { in_str: false, in_escape: false, buffer: seq![], list: seq![] }
    } else {
        line_step(line_fold(s.drop_last()), s.last())
    }
}

/// The words of a config line: the finished words, and the last one if it is not empty.
pub open spec fn line_words(s: Seq<char>) -> Seq<Seq<char>> {
    let st = line_fold(s);
    if st.buffer.len() == 0 {
        st.list
    } else {
        st.list.push(st.buffer)
    }
}

/// The views of a list of strings.
pub open spec fn views(v: Seq<String>) -> Seq<Seq<char>> {
    Seq::new(v.len(), |i: int| v[i]@)
}

/// The words of a config line.
#[derive(Debug)]
pub struct LineParser(pub Vec<String>);

impl LineParser {
    /// Split a config line into words: words are separated by spaces, and a quoted string
    /// (with `\"` for a quote inside it) is one word.
    pub fn parse(input: String) -> (r: Self)
        ensures
            views(r.0@) == line_words(input@),
    {
        let chars = chars_of(input.as_str());
        let mut in_str = false;
        let mut in_escape = false;
        let mut buffer = String::new();
        let mut string_list: Vec<String> = Vec::new();
        let mut i: usize = 0;
        proof {
            assert(chars@.subrange(0, 0) =~= Seq::<char>::empty());
            assert(views(string_list@) =~= Seq::<Seq<char>>::empty());
        }
        while i < chars.len()
            invariant
                chars@ == input@,
                i <= chars@.len(),
                line_fold(chars@.subrange(0, i as int)) == (LineState {
                    in_str,
                    in_escape,
                    buffer: buffer@,
                    list: views(string_list@),
                }),
            decreases chars@.len() - i,
        {
            let current = chars[i];
            proof {
                assert(chars@.subrange(0, i + 1).drop_last() =~= chars@.subrange(0, i as int));
            }
            let ghost old_list = string_list@;
            if !in_str {
                if current == '"' {
                    in_str = true;
                } else if current == ' ' {
                    if buffer.as_str().is_empty() {
                    } else {
                        string_list.push(buffer.clone());
                        buffer = String::new();
                        proof {
                            assert(views(string_list@) =~= views(old_list).push(string_list@.last()@));
                        }
                    }
                } else {
                    push_char(&mut buffer, current);
                }
            } else if current == '\\' {
                in_escape = true;
            } else if in_escape && current == '"' {
                push_char(&mut buffer, current);
                in_escape = false;
            } else if current == '"' {
                in_str = false;
                string_list.push(buffer.clone());
                buffer = String::new();
                proof {
                    assert(views(string_list@) =~= views(old_list).push(string_list@.last()@));
                }
            } else {
                push_char(&mut buffer, current);
            }
            proof {
                assert(buffer@ == line_fold(chars@.subrange(0, i + 1)).buffer);
            }
            i = i + 1;
        }
        proof {
            assert(chars@.subrange(0, chars@.len() as int) =~= chars@);
        }
        if !buffer.as_str().is_empty() {
            let ghost old_list = string_list@;
            string_list.push(buffer);
            proof {
                assert(views(string_list@) =~= views(old_list).push(string_list@.last()@));
            }
        }
        LineParser(string_list)
    }
}

/// Does `s` start with `p`?
pub open spec fn has_prefix(s: Seq<char>, p: Seq<char>) -> bool {
    p.len() <= s.len() && s.subrange(0, p.len() as int) == p
}

/// What follows the prefix `p` in `s`.
pub open spec fn after_prefix(s: Seq<char>, p: Seq<char>) -> Seq<char> {
    s.subrange(p.len() as int, s.len() as int)
}

/// The rest of `s` after the prefix `p`, if `s` starts with it (`str::strip_prefix`).
pub fn strip_prefix(s: &str, p: &str) -> (r: Option<String>)
    ensures
        match r {
            Some(x) => has_prefix(s@, p@) && x@ == after_prefix(s@, p@),
            None => !has_prefix(s@, p@),
        },
{
    let sc = chars_of(s);
    let pc = chars_of(p);
    if pc.len() > sc.len() {
        return None;
    }
    let mut i: usize = 0;
    while i < pc.len()
        invariant
            sc@ == s@,
            pc@ == p@,
            pc@.len() <= sc@.len(),
            i <= pc@.len(),
            forall|j: int| 0 <= j < i ==> sc@[j] == pc@[j],
        decreases pc@.len() - i,
    {
        if sc[i] != pc[i] {
            proof {
                assert(s@.subrange(0, p@.len() as int)[i as int] != p@[i as int]);
            }
            return None;
        }
        i = i + 1;
    }
    proof {
        assert(s@.subrange(0, p@.len() as int) =~= p@);
    }
    let mut rest = String::new();
    let mut k: usize = pc.len();
    proof {
        assert(rest@ =~= sc@.subrange(pc@.len() as int, k as int));
    }
    while k < sc.len()
        invariant
            sc@ == s@,
            pc@.len() <= k <= sc@.len(),
            rest@ == sc@.subrange(pc@.len() as int, k as int),
        decreases sc@.len() - k,
    {
        push_char(&mut rest, sc[k]);
        k = k + 1;
        proof {
            assert(rest@ =~= sc@.subrange(pc@.len() as int, k as int));
        }
    }
    Some(rest)
}

/// A line of a config file, read into its parts.
#[derive(Debug)]
pub enum ConfigLine {
    /// A comment line which starts with `#`.
    Comment(String),
    /// A new keybind: the keys, the action and its arguments.
    Keybind { keys: String, action: String, action_arguments: Vec<String> },
    /// A hook: its type, its command arguments and its option.
    Hook { hook_type: String, hook_args: Vec<String>, hook_option: String },
    /// A setting: its name and value.
    Setting { setting_name: String, setting_value: String },
    /// A workspace setting: the workspace, the setting and its values.
    WorkspaceSetting { workspace_identifier: String, workspace_setting_name: String, workspace_setting_value: Vec<String> },
    /// A bar setting: the bar, the setting and its values.
    BarSetting { bar_identifier: String, bar_setting_name: String, bar_setting_values: Vec<String> },
}

/// A [`ConfigLine`] with its strings taken as character sequences.
pub enum ConfigLineModel {
    Comment(Seq<char>),
    Keybind { keys: Seq<char>, action: Seq<char>, action_arguments: Seq<Seq<char>> },
    Hook { hook_type: Seq<char>, hook_args: Seq<Seq<char>>, hook_option: Seq<char> },
    Setting { setting_name: Seq<char>, setting_value: Seq<char> },
    WorkspaceSetting { workspace_identifier: Seq<char>, workspace_setting_name: Seq<char>, workspace_setting_value: Seq<Seq<char>> },
    BarSetting { bar_identifier: Seq<char>, bar_setting_name: Seq<char>, bar_setting_values: Seq<Seq<char>> },
}

impl View for ConfigLine {
    type V = ConfigLineModel;

    open spec fn view(&self) -> ConfigLineModel {
        match self {
            ConfigLine::Comment(c) => ConfigLineModel::Comment(c@),
            ConfigLine::Keybind { keys, action, action_arguments } => ConfigLineModel::Keybind {
                keys: keys@,
                action: action@,
                action_arguments: views(action_arguments@),
            },
            ConfigLine::Hook { hook_type, hook_args, hook_option } => ConfigLineModel::Hook {
                hook_type: hook_type@,
                hook_args: views(hook_args@),
                hook_option: hook_option@,
            },
            ConfigLine::Setting { setting_name, setting_value } => ConfigLineModel::Setting {
                setting_name: setting_name@,
                setting_value: setting_value@,
            },
            ConfigLine::WorkspaceSetting { workspace_identifier, workspace_setting_name, workspace_setting_value } => ConfigLineModel::WorkspaceSetting {
                workspace_identifier: workspace_identifier@,
                workspace_setting_name: workspace_setting_name@,
                workspace_setting_value: views(workspace_setting_value@),
            },
            ConfigLine::BarSetting { bar_identifier, bar_setting_name, bar_setting_values } => ConfigLineModel::BarSetting {
                bar_identifier: bar_identifier@,
                bar_setting_name: bar_setting_name@,
                bar_setting_values: views(bar_setting_values@),
            },
        }
    }
}

/// The words after the keyword of a config line that starts with `p`.
pub open spec fn words_after(line: Seq<char>, p: Seq<char>) -> Seq<Seq<char>> {
    line_words(after_prefix(line, p))
}

/// Does a line that starts with the keyword `p` have the two words that it is read with?
pub open spec fn has_two_words(line: Seq<char>, p: Seq<char>) -> bool {
    words_after(line, p).len() >= 2
}

/// Can a config line be read without indexing past its words? A line with a keyword needs
/// at least two words after it.
pub open spec fn config_line_readable(line: Seq<char>) -> bool {
    if has_prefix(line, "keybind "@) {
        has_two_words(line, "keybind "@)
    } else if has_prefix(line, "set "@) {
        has_two_words(line, "set "@)
    } else if has_prefix(line, "hook "@) {
        has_two_words(line, "hook "@)
    } else if has_prefix(line, "workspace_set"@) {
        has_two_words(line, "workspace_set"@)
    } else if has_prefix(line, "bar_set "@) {
        has_two_words(line, "bar_set "@)
    } else {
        true
    }
}

/// What a config line means: the keyword picks the kind of line, and the words after it
/// (split as `LineParser` does) are its parts. A line starting with `#` is a comment.
pub open spec fn read_config_line(line: Seq<char>) -> Result<ConfigLineModel, ErrorModel> {
    if has_prefix(line, "keybind "@) {
        let w = words_after(line, "keybind "@);
        Ok(ConfigLineModel::Keybind { keys: w[0], action: w[1], action_arguments: w.subrange(2, w.len() as int) })
    } else if has_prefix(line, "set "@) {
        let w = words_after(line, "set "@);
        Ok(ConfigLineModel::Setting { setting_name: w[0], setting_value: w[1] })
    } else if has_prefix(line, "hook "@) {
        let w = words_after(line, "hook "@);
        Ok(ConfigLineModel::Hook { hook_type: w[0], hook_option: w[1], hook_args: w.subrange(2, w.len() as int) })
    } else if has_prefix(line, "workspace_set"@) {
        let w = words_after(line, "workspace_set"@);
        Ok(ConfigLineModel::WorkspaceSetting {
            workspace_identifier: w[0],
            workspace_setting_name: w[1],
            workspace_setting_value: w.subrange(2, w.len() as int),
        })
    } else if has_prefix(line, "bar_set "@) {
        let w = words_after(line, "bar_set "@);
        Ok(ConfigLineModel::BarSetting {
            bar_identifier: w[0],
            bar_setting_name: w[1],
            bar_setting_values: w.subrange(2, w.len() as int),
        })
    } else if line.len() > 0 && line[0] == '#' {
        Ok(ConfigLineModel::Comment(line))
    } else {
        Err(ErrorModel::BadConfigLine)
    }
}

/// The strings of `v` from position `from` on, as new strings.
fn tail_strings(v: &Vec<String>, from: usize) -> (r: Vec<String>)
    requires
        from <= v@.len(),
    ensures
        views(r@) == views(v@).subrange(from as int, v@.len() as int),
{
    let mut r: Vec<String> = Vec::new();
    let mut i: usize = from;
    while i < v.len()
        invariant
            from <= i <= v@.len(),
            r@.len() == i - from,
            forall|j: int| 0 <= j < r@.len() ==> #[trigger] r@[j]@ == v@[from + j]@,
        decreases v@.len() - i,
    {
        r.push(v[i].clone());
        i = i + 1;
    }
    proof {
        assert(views(r@) =~= views(v@).subrange(from as int, v@.len() as int));
    }
    r
}

impl ConfigLine {
    /// Reads a config line.
    pub fn try_from(line: String) -> (r: Result<ConfigLine, Error>)
        requires
            config_line_readable(line@),
        ensures
            match read_config_line(line@) {
                Ok(m) => r matches Ok(x) && x@ == m,
                Err(e) => r matches Err(x) && x@ == e,
            },
    {
        if let Some(rest) = strip_prefix(line.as_str(), "keybind ") {
            let parser = LineParser::parse(rest);
            let ghost w = views(parser.0@);
            assert(w[0] == parser.0@[0]@ && w[1] == parser.0@[1]@);
            return Ok(ConfigLine::Keybind {
                keys: parser.0[0].clone(),
                action: parser.0[1].clone(),
                action_arguments: tail_strings(&parser.0, 2),
            });
        } else if let Some(rest) = strip_prefix(line.as_str(), "set ") {
            let parser = LineParser::parse(rest);
            let ghost w = views(parser.0@);
            assert(w[0] == parser.0@[0]@ && w[1] == parser.0@[1]@);
            return Ok(ConfigLine::Setting { setting_name: parser.0[0].clone(), setting_value: parser.0[1].clone() });
        } else if let Some(rest) = strip_prefix(line.as_str(), "hook ") {
            let parser = LineParser::parse(rest);
            let ghost w = views(parser.0@);
            assert(w[0] == parser.0@[0]@ && w[1] == parser.0@[1]@);
            return Ok(ConfigLine::Hook {
                hook_type: parser.0[0].clone(),
                hook_option: parser.0[1].clone(),
                hook_args: tail_strings(&parser.0, 2),
            });
        } else if let Some(rest) = strip_prefix(line.as_str(), "workspace_set") {
            let parser = LineParser::parse(rest);
            let ghost w = views(parser.0@);
            assert(w[0] == parser.0@[0]@ && w[1] == parser.0@[1]@);
            return Ok(ConfigLine::WorkspaceSetting {
                workspace_identifier: parser.0[0].clone(),
                workspace_setting_name: parser.0[1].clone(),
                workspace_setting_value: tail_strings(&parser.0, 2),
            });
        } else if let Some(rest) = strip_prefix(line.as_str(), "bar_set ") {
            let parser = LineParser::parse(rest);
            let ghost w = views(parser.0@);
            assert(w[0] == parser.0@[0]@ && w[1] == parser.0@[1]@);
            return Ok(ConfigLine::BarSetting {
                bar_identifier: parser.0[0].clone(),
                bar_setting_name: parser.0[1].clone(),
                bar_setting_values: tail_strings(&parser.0, 2),
            });
        } else if crate::text::first_char_is(line.as_str(), '#') {
            return Ok(ConfigLine::Comment(line));
        }
        Err(Error::BadConfigLine)
    }
}

/// The lines of a text, as `str::lines` gives them: split at `\n`, a `\r` just before a
/// `\n` dropped, and no empty last line after a final `\n`.
pub open spec fn lines_fold(s: Seq<char>) -> (Seq<Seq<char>>, Seq<char>)
    decreases s.len(),
{
    if s.len() == 0 {
        (seq![], seq![])
    } else {
        let (done, cur) = lines_fold(s.drop_last());
        if s.last() == '\n' {
            (done.push(strip_cr(cur)), seq![])
        } else {
            (done, cur.push(s.last()))
        }
    }
}

/// A line without the `\r` of a `\r\n` ending.
pub open spec fn strip_cr(cur: Seq<char>) -> Seq<char> {
    if cur.len() > 0 && cur.last() == '\r' {
        cur.drop_last()
    } else {
        cur
    }
}

/// The lines of a text.
pub open spec fn text_lines(s: Seq<char>) -> Seq<Seq<char>> {
    let (done, cur) = lines_fold(s);
    if cur.len() > 0 {
        done.push(cur)
    } else {
        done
    }
}

/// A line without the `\r` of a `\r\n` ending.
fn without_cr(cur: String) -> (r: String)
    ensures
        r@ == strip_cr(cur@),
{
    let chars = chars_of(cur.as_str());
    let n = chars.len();
    if n > 0 && chars[n - 1] == '\r' {
        let mut r = String::new();
        let mut i: usize = 0;
        while i < n - 1
            invariant
                n == chars@.len(),
                n > 0,
                i <= n - 1,
                r@ == chars@.subrange(0, i as int),
            decreases n - 1 - i,
        {
            push_char(&mut r, chars[i]);
            i = i + 1;
            proof {
                assert(r@ =~= chars@.subrange(0, i as int));
            }
        }
        proof {
            assert(r@ =~= cur@.drop_last());
        }
        r
    } else {
        cur
    }
}

/// The lines of a text (`str::lines`).
pub fn split_lines(s: &str) -> (r: Vec<String>)
    ensures
        views(r@) == text_lines(s@),
{
    let chars = chars_of(s);
    let mut done: Vec<String> = Vec::new();
    let mut cur = String::new();
    let mut i: usize = 0;
    proof {
        assert(chars@.subrange(0, 0) =~= Seq::<char>::empty());
        assert(views(done@) =~= Seq::<Seq<char>>::empty());
    }
    while i < chars.len()
        invariant
            chars@ == s@,
            i <= chars@.len(),
            lines_fold(chars@.subrange(0, i as int)) == (views(done@), cur@),
        decreases chars@.len() - i,
    {
        let c = chars[i];
        proof {
            assert(chars@.subrange(0, i + 1).drop_last() =~= chars@.subrange(0, i as int));
        }
        if c == '\n' {
            let ghost before = views(done@);
            let line = without_cr(cur);
            done.push(line);
            cur = String::new();
            proof {
                assert(views(done@) =~= before.push(done@.last()@));
            }
        } else {
            push_char(&mut cur, c);
        }
        i = i + 1;
    }
    proof {
        assert(chars@.subrange(0, chars@.len() as int) =~= chars@);
    }
    if !cur.as_str().is_empty() {
        let ghost before = views(done@);
        done.push(cur);
        proof {
            assert(views(done@) =~= before.push(done@.last()@));
        }
    }
    done
}

/// How reading a config file ends: with a configuration, with an error, or stuck on a
/// line that would be indexed past its words.
pub enum ParseOutcome {
    Done(ConfigModel),
    Failed(ErrorModel),
    Stuck,
}

/// The configuration after one more line of the config file. Empty lines and comments
/// change nothing; a keybind's action text is its action and its arguments joined by
/// spaces.
pub open spec fn apply_line(c: ConfigModel, line: Seq<char>) -> ParseOutcome {
    if line.len() == 0 {
        ParseOutcome::Done(c)
    } else if !config_line_readable(line) {
        ParseOutcome::Stuck
    } else {
        match read_config_line(line) {
            Err(e) => ParseOutcome::Failed(e),
            Ok(ConfigLineModel::Comment(_)) => ParseOutcome::Done(c),
            Ok(ConfigLineModel::Keybind { keys, action, action_arguments }) => {
                let a = action + " "@ + join_with(action_arguments, " "@);
                match keybind_read(keys, a) {
                    Some(kb) => ParseOutcome::Done(ConfigModel { keybinds: keybinds_add(c.keybinds, kb), ..c }),
                    None => ParseOutcome::Failed(keybind_error(keys, a)),
                }
            },
            Ok(ConfigLineModel::Hook { hook_type, hook_args, hook_option }) => match hook_read(hook_type, hook_args, hook_option) {
                Some(h) => ParseOutcome::Done(ConfigModel { start_hooks: c.start_hooks.push(h), ..c }),
                None => ParseOutcome::Failed(hook_error_model(hook_type, hook_option)),
            },
            Ok(ConfigLineModel::Setting { setting_name, setting_value }) => match options_add(c.settings, setting_name, setting_value) {
                Ok(o) => ParseOutcome::Done(ConfigModel { settings: o, ..c }),
                Err(k) => ParseOutcome::Failed(option_error_model(k, setting_name, setting_value)),
            },
            Ok(ConfigLineModel::WorkspaceSetting { workspace_identifier, workspace_setting_name, workspace_setting_value }) => {
                match parse_uint(workspace_identifier, u32::MAX as nat) {
                    Err(k) => ParseOutcome::Failed(ErrorModel::ParseInt(k)),
                    Ok(n) => if !workspace_add_readable(c.workspace_settings, n as u32, workspace_setting_name, workspace_setting_value) {
                        ParseOutcome::Stuck
                    } else {
                        match workspace_add(c.workspace_settings, n as u32, workspace_setting_name, workspace_setting_value) {
                            Ok(w) => ParseOutcome::Done(ConfigModel { workspace_settings: w, ..c }),
                            Err(WorkspaceSettingError::NoWorkspace) => ParseOutcome::Failed(ErrorModel::NoSuchWorkspace(n as u32)),
                            Err(WorkspaceSettingError::Unknown) => ParseOutcome::Failed(ErrorModel::UnknownWorkspaceSetting(workspace_setting_name)),
                        }
                    },
                }
            },
            Ok(ConfigLineModel::BarSetting { bar_identifier, bar_setting_name, bar_setting_values }) => {
                match parse_uint(bar_identifier, u32::MAX as nat) {
                    Err(k) => ParseOutcome::Failed(ErrorModel::ParseInt(k)),
                    Ok(n) => if !bar_setting_readable(bar_setting_name, bar_setting_values) {
                        ParseOutcome::Stuck
                    } else {
                        let (bars, r) = bars_add(c.bar_settings, n as u32, bar_setting_name, bar_setting_values);
                        match r {
                            Ok(()) => ParseOutcome::Done(ConfigModel { bar_settings: bars, ..c }),
                            Err(e) => ParseOutcome::Failed(e),
                        }
                    },
                }
            },
        }
    }
}

/// The configuration after the lines `lines`, starting from the default configuration.
/// The first line that fails decides the outcome.
pub open spec fn parse_lines(lines: Seq<Seq<char>>) -> ParseOutcome
    decreases lines.len(),
{
    if lines.len() == 0 {
        ParseOutcome::Done(default_config())
    } else {
        match parse_lines(lines.drop_last()) {
            ParseOutcome::Done(c) => apply_line(c, lines.last()),
            other => other,
        }
    }
}

/// What reading the config file `contents` gives.
pub open spec fn parse_config(contents: Seq<char>) -> ParseOutcome {
    parse_lines(text_lines(contents))
}

/// Once reading fails or gets stuck, more lines change nothing.
proof fn lemma_parse_lines_stops(lines: Seq<Seq<char>>, k: int)
    requires
        0 <= k <= lines.len(),
        !(parse_lines(lines.subrange(0, k)) is Done),
    ensures
        parse_lines(lines) == parse_lines(lines.subrange(0, k)),
    decreases lines.len(),
{
    if lines.len() > k {
        assert(lines.drop_last().subrange(0, k) =~= lines.subrange(0, k));
        lemma_parse_lines_stops(lines.drop_last(), k);
    } else {
        assert(lines.subrange(0, k) =~= lines);
    }
}

/// A string with a separator in it splits into at least two pieces.
pub proof fn lemma_split_two(s: Seq<char>, i: int, sep: char)
    requires
        0 <= i < s.len(),
        s[i] == sep,
    ensures
        split_fold(s, sep).0.len() >= 1,
    decreases s.len(),
{
    if i < s.len() - 1 {
        assert(s.drop_last()[i] == sep);
        lemma_split_two(s.drop_last(), i, sep);
    }
}

/// Reads config files.
pub struct ConfigParser;

impl ConfigParser {
    /// Applies one config line to `ret`.
    fn apply(ret: &mut Config, line: String) -> (r: Result<(), Error>)
        requires
            line@.len() > 0,
            !(apply_line(old(ret)@, line@) is Stuck),
        ensures
            match apply_line(old(ret)@, line@) {
                ParseOutcome::Done(m) => r is Ok && final(ret)@ == m,
                ParseOutcome::Failed(e) => r matches Err(x) && x@ == e,
                ParseOutcome::Stuck => false,
            },
    {
        let ghost c = ret@;
        let config_line = match ConfigLine::try_from(line) {
            Ok(l) => l,
            Err(e) => return Err(e),
        };
        match config_line {
            ConfigLine::Comment(_) => Ok(()),
            ConfigLine::Keybind { keys, action, action_arguments } => {
                let ghost k0 = keys@;
                let mut action = action;
                let ghost a0 = action@;
                action.append(" ");
                let joined = join_strings(&action_arguments, " ");
                action.append(joined.as_str());
                let ghost a = action@;
                proof {
                    reveal_strlit(" ");
                    assert(a == a0 + " "@ + join_with(views(action_arguments@), " "@));
                    assert(a[a0.len() as int] == ' ');
                    lemma_split_two(a, a0.len() as int, ' ');
                }
                match ret.keybinds.add(keys, action) {
                    Ok(()) => Ok(()),
                    Err(e) => {
                        proof {
                            lemma_keybind_error(e, k0, a);
                        }
                        Err(e)
                    },
                }
            },
            ConfigLine::Hook { hook_type, hook_args, hook_option } => {
                let ghost t = hook_type@;
                let ghost o = hook_option@;
                match ret.start_hooks.add(hook_type, hook_args, hook_option) {
                    Ok(()) => Ok(()),
                    Err(e) => {
                        proof {
                            lemma_hook_error_model(e, t, o);
                        }
                        Err(e)
                    },
                }
            },
            ConfigLine::Setting { setting_name, setting_value } => {
                let ghost n = setting_name@;
                let ghost v = setting_value@;
                match ret.settings.add(setting_name, setting_value) {
                    Ok(()) => Ok(()),
                    Err(e) => {
                        proof {
                            lemma_option_error_model(e, options_add(c.settings, n, v)->Err_0, n, v);
                        }
                        Err(e)
                    },
                }
            },
            ConfigLine::WorkspaceSetting { workspace_identifier, workspace_setting_name, workspace_setting_value } => {
                let id = match parse_u32(workspace_identifier.as_str()) {
                    Ok(id) => id,
                    Err(e) => return Err(e),
                };
                ret.workspace_settings.add(id, workspace_setting_name, workspace_setting_value)
            },
            ConfigLine::BarSetting { bar_identifier, bar_setting_name, bar_setting_values } => {
                let id = match parse_u32(bar_identifier.as_str()) {
                    Ok(id) => id,
                    Err(e) => return Err(e),
                };
                ret.bar_settings.add(id, bar_setting_name, bar_setting_values)
            },
        }
    }

    /// Is the line one that the reader cannot take (a keyword with too few words after
    /// it, or a workspace or bar setting with too few values)?
    fn line_stuck(ret: &Config, line: &String) -> (r: bool)
        requires
            line@.len() > 0,
        ensures
            r == (apply_line(ret@, line@) is Stuck),
    {
        if !line_readable(line.as_str()) {
            return true;
        }
        match ConfigLine::try_from(line.clone()) {
            Ok(ConfigLine::WorkspaceSetting { workspace_identifier, workspace_setting_name, workspace_setting_value }) => {
                match parse_u32(workspace_identifier.as_str()) {
                    Ok(id) => !ret.workspace_settings.can_add(id, workspace_setting_name.as_str(), &workspace_setting_value),
                    Err(_) => false,
                }
            },
            Ok(ConfigLine::BarSetting { bar_identifier, bar_setting_name, bar_setting_values }) => {
                match parse_u32(bar_identifier.as_str()) {
                    Ok(_) => !setting_readable(bar_setting_name.as_str(), &bar_setting_values),
                    Err(_) => false,
                }
            },
            _ => false,
        }
    }

    /// Reads a config file's contents line by line, starting from the default
    /// configuration, and records `path` as the file's path. The first line that fails
    /// decides the error; a line that cannot be read at all (a keyword with too few words,
    /// a setting with too few values) gives `None`.
    pub fn parse_contents_checked(file_contents: &str, path: String) -> (r: Option<Result<Config, Error>>)
        ensures
            match parse_config(file_contents@) {
                ParseOutcome::Done(m) => r matches Some(Ok(c)) && c@ == (ConfigModel { path: path@, ..m }),
                ParseOutcome::Failed(e) => r matches Some(Err(x)) && x@ == e,
                ParseOutcome::Stuck => r is None,
            },
    {
        let lines = split_lines(file_contents);
        let ghost lv = views(lines@);
        let mut ret = Config::default();
        let mut i: usize = 0;
        proof {
            assert(lv.subrange(0, 0) =~= Seq::<Seq<char>>::empty());
        }
        while i < lines.len()
            invariant
                lv == views(lines@),
                lv == text_lines(file_contents@),
                i <= lines@.len(),
                parse_lines(lv.subrange(0, i as int)) == ParseOutcome::Done(ret@),
            decreases lines@.len() - i,
        {
            proof {
                assert(lv.subrange(0, i + 1).drop_last() =~= lv.subrange(0, i as int));
                assert(lv[i as int] == lines@[i as int]@);
            }
            if !lines[i].as_str().is_empty() {
                if ConfigParser::line_stuck(&ret, &lines[i]) {
                    proof {
                        lemma_parse_lines_stops(lv, i + 1);
                    }
                    return None;
                }
                match ConfigParser::apply(&mut ret, lines[i].clone()) {
                    Ok(()) => {},
                    Err(e) => {
                        proof {
                            lemma_parse_lines_stops(lv, i + 1);
                        }
                        return Some(Err(e));
                    },
                }
            }
            i = i + 1;
        }
        proof {
            assert(lv.subrange(0, lines@.len() as int) =~= lv);
        }
        ret.path = path;
        Some(Ok(ret))
    }

    /// Reads a config file's contents, as `parse_contents_checked` does, when no line of
    /// it is one that cannot be read at all.
    pub fn parse_contents(file_contents: &str, path: String) -> (r: Result<Config, Error>)
        requires
            !(parse_config(file_contents@) is Stuck),
        ensures
            match parse_config(file_contents@) {
                ParseOutcome::Done(m) => r matches Ok(c) && c@ == (ConfigModel { path: path@, ..m }),
                ParseOutcome::Failed(e) => r matches Err(x) && x@ == e,
                ParseOutcome::Stuck => false,
            },
    {
        match ConfigParser::parse_contents_checked(file_contents, path) {
            Some(r) => r,
            None => {
                proof {
                    assert(false);
                }
                Err(Error::BadConfigLine)
            },
        }
    }
}

/// Can a config line be read? The keywords `keybind`, `set`, `hook`, `workspace_set` and
/// `bar_set` need two words after them.
fn line_readable(line: &str) -> (r: bool)
    ensures
        r == config_line_readable(line@),
{
    if let Some(rest) = strip_prefix(line, "keybind ") {
        return LineParser::parse(rest).0.len() >= 2;
    }
    if let Some(rest) = strip_prefix(line, "set ") {
        return LineParser::parse(rest).0.len() >= 2;
    }
    if let Some(rest) = strip_prefix(line, "hook ") {
        return LineParser::parse(rest).0.len() >= 2;
    }
    if let Some(rest) = strip_prefix(line, "workspace_set") {
        return LineParser::parse(rest).0.len() >= 2;
    }
    if let Some(rest) = strip_prefix(line, "bar_set ") {
        return LineParser::parse(rest).0.len() >= 2;
    }
    true
}

} // verus!
