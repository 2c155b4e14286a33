//! The settings of the runner and the text file that keeps them.
//!
//! The file holds one `key=value` pair per line. Four keys are known:
//! `cookies`, `python_path`, `rust_path` and `default`. Nothing is escaped, so
//! a value cannot hold a line break.

use vstd::prelude::*;
use crate::error::ConfigError;
use crate::text::{
    chars_of, first_index, index_of_char, lemma_first_index, lemma_split_first, lemma_split_pieces,
    lemma_split_single, range_is, rows, split, split_chars, str_eq, string_of_range, texts,
};

verus! {

/// The settings of the runner.
#[derive(Debug)]
pub struct Config {
    /// The session cookie that the puzzle site knows the user by.
    pub cookies: String,
    /// Where the interpreted solutions are kept.
    pub python_path: String,
    /// Where the compiled solutions are kept.
    pub rust_path: String,
    /// The language to run when none is asked for.
    pub default: String,
}

/// The settings as texts.
pub struct ConfigView {
    pub cookies: Seq<char>,
    pub python_path: Seq<char>,
    pub rust_path: Seq<char>,
    pub default: Seq<char>,
}

impl View for Config {
    type V = ConfigView;

    open spec fn view(&self) -> ConfigView {
        ConfigView {
            cookies: self.cookies@,
            python_path: self.python_path@,
            rust_path: self.rust_path@,
            default: self.default@,
        }
    }
}

/// The settings before any file is read: empty texts, and `python` as the
/// default language.
pub open spec fn default_config() -> ConfigView {
    ConfigView {
        cookies: Seq::empty(),
        python_path: Seq::empty(),
        rust_path: Seq::empty(),
        default: "python"@,
    }
}

/// `line` without the carriage return at its end, if it has one.
pub open spec fn strip_cr(line: Seq<char>) -> Seq<char> {
    if line.len() > 0 && line.last() == '\r' {
        line.drop_last()
    } else {
        line
    }
}

/// The lines of a text. A line ends at a newline, or at a carriage return
/// followed by a newline; neither belongs to the line. What follows the last
/// newline is a line too, unless it is empty.
pub open spec fn lines(text: Seq<char>) -> Seq<Seq<char>> {
    let pieces = split(text, '\n');
    let ended = pieces.drop_last().map_values(|l: Seq<char>| strip_cr(l));
    if pieces.last().len() == 0 {
        ended
    } else {
        ended.push(pieces.last())
    }
}

/// The settings `c` after one line of the file: a line `key=value` with a
/// known key sets that field, the key being what stands before the first
/// `=`; any other line changes nothing.
pub open spec fn apply_line(c: ConfigView, line: Seq<char>) -> ConfigView {
    let i = first_index(line, '=');
    if 0 <= i < line.len() {
        let key = line.take(i);
        let value = line.skip(i + 1);
        if key == "cookies"@ {
            ConfigView { cookies: value, ..c }
        } else if key == "python_path"@ {
            ConfigView { python_path: value, ..c }
        } else if key == "rust_path"@ {
            ConfigView { rust_path: value, ..c }
        } else if key == "default"@ {
            ConfigView { default: value, ..c }
        } else {
            c
        }
    } else {
        c
    }
}

/// The settings `c` after the given lines, taken in order.
pub open spec fn apply_lines(c: ConfigView, lines: Seq<Seq<char>>) -> ConfigView
    decreases lines.len(),
{
    if lines.len() == 0 {
        c
    } else {
        apply_line(apply_lines(c, lines.drop_last()), lines.last())
    }
}

/// The settings that a file's text holds: the defaults, changed by each line
/// in turn, so that of two lines with one key the later wins.
pub open spec fn parsed_config(text: Seq<char>) -> ConfigView {
    apply_lines(default_config(), lines(text))
}

/// The line that sets `key` to `value`.
pub open spec fn entry(key: Seq<char>, value: Seq<char>) -> Seq<char> {
    key + seq!['='] + value
}

/// The text of the file that keeps the settings `c`: the four known keys in
/// a fixed order, one per line, with no line break after the last.
pub open spec fn serialized_config(c: ConfigView) -> Seq<char> {
    entry("cookies"@, c.cookies) + seq!['\n'] + entry("python_path"@, c.python_path) + seq!['\n']
        + entry("rust_path"@, c.rust_path) + seq!['\n'] + entry("default"@, c.default)
}

impl Default for Config {
    fn default() -> (c: Config)
        ensures
            c@ == default_config(),
    {
        Config {
            cookies: String::new(),
            python_path: String::new(),
            rust_path: String::new(),
            default: "python".to_owned(),
        }
    }
}

/// Changes `config` as the line `line[..len]` of a settings file says.
fn read_line(config: &mut Config, line: &Vec<char>, len: usize)
    requires
        len <= line.len(),
    ensures
        final(config)@ == apply_line(old(config)@, line@.take(len as int)),
{
    let ghost l = line@.take(len as int);
    let at: usize = index_of_char(line, '=');
    proof {
        crate::text::lemma_first_index_is_first(line@, '=');
        if at < len {
            assert forall|j: int| 0 <= j < at implies l[j] != '=' by {
                assert(l[j] == line@[j]);
            }
            assert(l[at as int] == '=');
            lemma_first_index(l, '=', at as int);
        } else {
            assert forall|j: int| 0 <= j < len implies l[j] != '=' by {
                assert(l[j] == line@[j]);
            }
            lemma_first_index(l, '=', len as int);
        }
    }
    if at < len {
        assert(l.take(at as int) == line@.subrange(0, at as int));
        assert(l.skip(at + 1) == line@.subrange(at + 1, len as int));
        if range_is(line, 0, at, "cookies") {
            config.cookies = string_of_range(line, at + 1, len);
        } else if range_is(line, 0, at, "python_path") {
            config.python_path = string_of_range(line, at + 1, len);
        } else if range_is(line, 0, at, "rust_path") {
            config.rust_path = string_of_range(line, at + 1, len);
        } else if range_is(line, 0, at, "default") {
            config.default = string_of_range(line, at + 1, len);
        }
    }
}

/// Reads settings from the text of a settings file.
///
/// Lines without `=`, and lines whose key is not known, are passed over. A
/// key that the file does not set keeps its default.
pub fn parse_config(text: &str) -> (c: Config)
    ensures
        c@ == parsed_config(text@),
{
    let chars = chars_of(text);
    let pieces = split_chars(&chars, chars.len(), '\n');
    assert(chars@.take(chars@.len() as int) == chars@);
    let ghost all = split(text@, '\n');
    let ghost ended = all.drop_last().map_values(|l: Seq<char>| strip_cr(l));
    proof {
        lemma_split_pieces(text@, '\n');
    }
    let mut config = Config::default();
    let last: usize = pieces.len() - 1;
    let mut i: usize = 0;
    assert(ended.take(0) == Seq::<Seq<char>>::empty());
    while i < last
        invariant
            i <= last == pieces.len() - 1,
            rows(pieces@) == all,
            ended == all.drop_last().map_values(|l: Seq<char>| strip_cr(l)),
            config@ == apply_lines(default_config(), ended.take(i as int)),
        decreases last - i,
    {
        let piece = &pieces[i];
        let n: usize = piece.len();
        let len: usize = if n > 0 && piece[n - 1] == '\r' {
            n - 1
        } else {
            n
        };
        proof {
            assert(all[i as int] == piece@);
            assert(piece@.take(n as int) == piece@);
            assert(piece@.take(len as int) == strip_cr(piece@));
            assert(ended.take(i + 1).drop_last() == ended.take(i as int));
            assert(ended.take(i + 1).last() == strip_cr(piece@));
        }
        read_line(&mut config, piece, len);
        i += 1;
    }
    assert(ended.take(last as int) == ended);
    let piece = &pieces[last];
    assert(all.last() == piece@);
    if piece.len() > 0 {
        proof {
            assert(piece@.take(piece@.len() as int) == piece@);
            assert(ended.push(piece@).drop_last() == ended);
        }
        read_line(&mut config, piece, piece.len());
    }
    config
}

/// Reads settings from what the settings file held, if there was one.
pub fn load_config(contents: Option<String>) -> (r: Result<Config, ConfigError>)
    ensures
        contents is None ==> (r matches Err(e) && e == ConfigError::NotFound),
        contents matches Some(text) ==> (r matches Ok(c) && c@ == parsed_config(text@)),
{
    match contents {
        Some(text) => Ok(parse_config(text.as_str())),
        None => Err(ConfigError::NotFound),
    }
}

/// The text of the file that keeps `config`.
pub fn write_config(config: &Config) -> (text: String)
    ensures
        text@ == serialized_config(config@),
{
    let mut text = String::new();
    push_entry(&mut text, "cookies", config.cookies.as_str());
    text.push('\n');
    push_entry(&mut text, "python_path", config.python_path.as_str());
    text.push('\n');
    push_entry(&mut text, "rust_path", config.rust_path.as_str());
    text.push('\n');
    push_entry(&mut text, "default", config.default.as_str());
    assert(text@ =~= serialized_config(config@));
    text
}

/// Appends the line that sets `key` to `value`, without a line break.
fn push_entry(text: &mut String, key: &str, value: &str)
    ensures
        final(text)@ == old(text)@ + entry(key@, value@),
{
    text.append(key);
    text.push('=');
    text.append(value);
    assert(text@ =~= old(text)@ + entry(key@, value@));
}

/// Whether no value of the settings `c` holds a line break.
pub open spec fn free_of_line_breaks(c: ConfigView) -> bool {
    &&& !c.cookies.contains('\n')
    &&& !c.python_path.contains('\n')
    &&& !c.rust_path.contains('\n')
    &&& !c.default.contains('\n')
}

/// Whether the settings `c` can be kept in a file as they are: no value
/// holds a line break, and none but the last written, `default`, ends in a
/// carriage return, which would be taken for part of the line's end.
pub open spec fn storable(c: ConfigView) -> bool {
    &&& free_of_line_breaks(c)
    &&& strip_cr(c.cookies) == c.cookies
    &&& strip_cr(c.python_path) == c.python_path
    &&& strip_cr(c.rust_path) == c.rust_path
}

/// The line that sets `key` to `value` is cut at the `=` that follows the
/// key, whatever the value holds.
pub proof fn lemma_entry_parts(key: Seq<char>, value: Seq<char>)
    requires
        !key.contains('='),
    ensures
        first_index(entry(key, value), '=') == key.len(),
        entry(key, value).take(key.len() as int) == key,
        entry(key, value).skip(key.len() as int + 1) == value,
{
    let line = entry(key, value);
    let k = key.len() as int;
    assert forall|j: int| 0 <= j < k implies line[j] != '=' by {
        assert(line[j] == key[j]);
        assert(key.contains(key[j]));
    }
    assert(line[k] == '=');
    lemma_first_index(line, '=', k);
    assert(line.take(k) == key);
    assert(line.skip(k + 1) == value);
}

/// A line that sets a key holds no line break where neither the key nor the
/// value does, and a carriage return at its end is one at the end of the
/// value.
proof fn lemma_entry_is_line(key: Seq<char>, value: Seq<char>)
    requires
        !key.contains('\n'),
        !value.contains('\n'),
    ensures
        !entry(key, value).contains('\n'),
        strip_cr(entry(key, value)) == entry(key, strip_cr(value)),
{
    let line = entry(key, value);
    assert forall|j: int| 0 <= j < line.len() implies line[j] != '\n' by {
        if j < key.len() {
            assert(line[j] == key[j]);
            assert(key.contains(key[j]));
        } else if j > key.len() {
            assert(line[j] == value[j - key.len() - 1]);
            assert(value.contains(value[j - key.len() - 1]));
        }
    }
    if value.len() > 0 {
        assert(line.last() == value.last());
        if value.last() == '\r' {
            assert(line.drop_last() == entry(key, value.drop_last()));
        }
    } else {
        assert(line.last() == '=');
    }
}

/// What the four known keys hold: no `=`, no line break, and no two alike.
proof fn lemma_known_keys()
    ensures
        !"cookies"@.contains('=') && !"cookies"@.contains('\n'),
        !"python_path"@.contains('=') && !"python_path"@.contains('\n'),
        !"rust_path"@.contains('=') && !"rust_path"@.contains('\n'),
        !"default"@.contains('=') && !"default"@.contains('\n'),
        "cookies"@ != "python_path"@,
        "cookies"@ != "rust_path"@,
        "cookies"@ != "default"@,
        "python_path"@ != "rust_path"@,
        "python_path"@ != "default"@,
        "rust_path"@ != "default"@,
{
    reveal_strlit("cookies");
    reveal_strlit("python_path");
    reveal_strlit("rust_path");
    reveal_strlit("default");
    assert("cookies"@[0] == 'c' && "default"@[0] == 'd');
}

/// What settings without line breaks are read back as once written to a
/// file: every value as it was, but for a carriage return at the end of a
/// value that is followed by another line.
pub proof fn lemma_config_read_back(c: ConfigView)
    requires
        free_of_line_breaks(c),
    ensures
        parsed_config(serialized_config(c)) == (ConfigView {
            cookies: strip_cr(c.cookies),
            python_path: strip_cr(c.python_path),
            rust_path: strip_cr(c.rust_path),
            default: c.default,
        }),
{
    lemma_known_keys();
    let e1 = entry("cookies"@, c.cookies);
    let e2 = entry("python_path"@, c.python_path);
    let e3 = entry("rust_path"@, c.rust_path);
    let e4 = entry("default"@, c.default);
    lemma_entry_is_line("cookies"@, c.cookies);
    lemma_entry_is_line("python_path"@, c.python_path);
    lemma_entry_is_line("rust_path"@, c.rust_path);
    lemma_entry_is_line("default"@, c.default);
    let text = serialized_config(c);
    let t3 = e3 + seq!['\n'] + e4;
    let t2 = e2 + seq!['\n'] + t3;
    assert(text == e1 + seq!['\n'] + t2);
    lemma_split_first(e1, t2, '\n');
    lemma_split_first(e2, t3, '\n');
    lemma_split_first(e3, e4, '\n');
    lemma_split_single(e4, '\n');
    let pieces = split(text, '\n');
    assert(pieces == seq![e1, e2, e3, e4]);
    let s1 = entry("cookies"@, strip_cr(c.cookies));
    let s2 = entry("python_path"@, strip_cr(c.python_path));
    let s3 = entry("rust_path"@, strip_cr(c.rust_path));
    let ended = pieces.drop_last().map_values(|l: Seq<char>| strip_cr(l));
    assert(ended == seq![s1, s2, s3]);
    assert(e4.len() > 0);
    let all = lines(text);
    assert(all == seq![s1, s2, s3, e4]);
    lemma_entry_parts("cookies"@, strip_cr(c.cookies));
    lemma_entry_parts("python_path"@, strip_cr(c.python_path));
    lemma_entry_parts("rust_path"@, strip_cr(c.rust_path));
    lemma_entry_parts("default"@, c.default);
    let l3 = all.drop_last();
    let l2 = l3.drop_last();
    let l1 = l2.drop_last();
    assert(l3 == seq![s1, s2, s3]);
    assert(l2 == seq![s1, s2]);
    assert(l1 == seq![s1]);
    assert(l1.drop_last() == Seq::<Seq<char>>::empty());
    let d = default_config();
    let c1 = apply_lines(d, l1);
    assert(apply_lines(d, l1.drop_last()) == d);
    assert(c1 == apply_line(d, s1));
    let c2 = apply_lines(d, l2);
    assert(c2 == apply_line(c1, s2));
    let c3 = apply_lines(d, l3);
    assert(c3 == apply_line(c2, s3));
    assert(apply_lines(d, all) == apply_line(c3, e4));
}

/// Settings written to a file and read back are the settings that were
/// written, for all settings that a file can keep.
pub proof fn lemma_config_round_trip(c: ConfigView)
    requires
        storable(c),
    ensures
        parsed_config(serialized_config(c)) == c,
{
    lemma_config_read_back(c);
}

/// One line of a file leaves the values free of line breaks.
proof fn lemma_line_brings_no_line_break(c: ConfigView, line: Seq<char>)
    requires
        free_of_line_breaks(c),
        !line.contains('\n'),
    ensures
        free_of_line_breaks(apply_line(c, line)),
{
    let i = first_index(line, '=');
    if 0 <= i < line.len() {
        let value = line.skip(i + 1);
        assert forall|j: int| 0 <= j < value.len() implies value[j] != '\n' by {
            assert(value[j] == line[i + 1 + j]);
            assert(line.contains(line[i + 1 + j]));
        }
    }
}

/// Lines without line breaks leave the values free of line breaks.
proof fn lemma_lines_bring_no_line_break(c: ConfigView, lines: Seq<Seq<char>>)
    requires
        free_of_line_breaks(c),
        forall|i: int| 0 <= i < lines.len() ==> !(#[trigger] lines[i]).contains('\n'),
    ensures
        free_of_line_breaks(apply_lines(c, lines)),
    decreases lines.len(),
{
    if lines.len() > 0 {
        let front = lines.drop_last();
        assert forall|i: int| 0 <= i < front.len() implies !(#[trigger] front[i]).contains(
            '\n',
        ) by {
            assert(front[i] == lines[i]);
        }
        lemma_lines_bring_no_line_break(c, front);
        lemma_line_brings_no_line_break(apply_lines(c, front), lines.last());
    }
}

/// No value that is read from a file holds a line break.
pub proof fn lemma_parsed_config_is_free_of_line_breaks(text: Seq<char>)
    ensures
        free_of_line_breaks(parsed_config(text)),
{
    reveal_strlit("python");
    lemma_split_pieces(text, '\n');
    let pieces = split(text, '\n');
    let all = lines(text);
    assert forall|i: int| 0 <= i < all.len() implies !(#[trigger] all[i]).contains('\n') by {
        let piece = pieces[i];
        assert(!piece.contains('\n'));
        if i < pieces.len() - 1 {
            assert(all[i] == strip_cr(piece));
            let line = all[i];
            assert forall|j: int| 0 <= j < line.len() implies line[j] != '\n' by {
                assert(line[j] == piece[j]);
                assert(piece.contains(piece[j]));
            }
        } else {
            assert(all[i] == piece);
        }
    }
    assert(free_of_line_breaks(default_config())) by {
        let python = "python"@;
        assert forall|j: int| 0 <= j < python.len() implies python[j] != '\n' by {}
    }
    lemma_lines_bring_no_line_break(default_config(), all);
}

/// Settings that a file cannot keep as they are do not come back as they
/// were written.
pub proof fn lemma_config_round_trip_needs_storable(c: ConfigView)
    requires
        !storable(c),
    ensures
        parsed_config(serialized_config(c)) != c,
{
    if free_of_line_breaks(c) {
        lemma_config_read_back(c);
    } else {
        lemma_parsed_config_is_free_of_line_breaks(serialized_config(c));
    }
}

/// What an attempt to write the settings file comes to: an error where the
/// file could not be written.
pub fn confirm_write(written: bool) -> (r: Result<(), ConfigError>)
    ensures
        written ==> r is Ok,
        !written ==> r == Err::<(), ConfigError>(ConfigError::IOFailure),
{
    if written {
        Ok(())
    } else {
        Err(ConfigError::IOFailure)
    }
}

/// The directory that keeps the settings, as path components that start
/// with the user's home directory; `None` on an operating system that has no
/// such place.
pub open spec fn directory_under(home: Seq<char>, os: Seq<char>) -> Option<Seq<Seq<char>>> {
    if os == "linux"@ {
        Some(seq![home, ".config"@, "aocrunner"@])
    } else if os == "windows"@ {
        Some(seq![home, "AppData"@, "Local"@, "aocrunner"@])
    } else {
        None
    }
}

/// The directory that keeps the settings, for a user whose home directory is
/// `home` on the operating system named `os`.
///
/// The path comes as its components, the home directory first. A user
/// without a home directory has no such place, whatever the system; with
/// one, only `linux` and `windows` are known.
pub fn config_directory(home: Option<String>, os: &str) -> (r: Result<Vec<String>, ConfigError>)
    ensures
        home is None ==> (r matches Err(e) && e == ConfigError::NoHomeDirectory),
        home matches Some(h) ==> match directory_under(h@, os@) {
            Some(path) => r matches Ok(v) && texts(v@) == path,
            None => r matches Err(e) && e == ConfigError::UnsupportedOs,
        },
{
    let home = match home {
        Some(h) => h,
        None => {
            return Err(ConfigError::NoHomeDirectory);
        },
    };
    let ghost h = home@;
    let mut path: Vec<String> = Vec::new();
    path.push(home);
    if str_eq(os, "linux") {
        path.push(".config".to_owned());
        path.push("aocrunner".to_owned());
        assert(texts(path@) == seq![h, ".config"@, "aocrunner"@]);
        Ok(path)
    } else if str_eq(os, "windows") {
        path.push("AppData".to_owned());
        path.push("Local".to_owned());
        path.push("aocrunner".to_owned());
        assert(texts(path@) == seq![h, "AppData"@, "Local"@, "aocrunner"@]);
        Ok(path)
    } else {
        Err(ConfigError::UnsupportedOs)
    }
}

/// The settings file: `aocrunner.txt` in the directory that keeps the
/// settings.
pub fn config_file(home: Option<String>, os: &str) -> (r: Result<Vec<String>, ConfigError>)
    ensures
        home is None ==> (r matches Err(e) && e == ConfigError::NoHomeDirectory),
        home matches Some(h) ==> match directory_under(h@, os@) {
            Some(path) => r matches Ok(v) && texts(v@) == path.push("aocrunner.txt"@),
            None => r matches Err(e) && e == ConfigError::UnsupportedOs,
        },
{
    match config_directory(home, os) {
        Ok(directory) => {
            let mut path = directory;
            let ghost before = path@;
            path.push("aocrunner.txt".to_owned());
            assert(texts(path@) == texts(before).push("aocrunner.txt"@));
            Ok(path)
        },
        Err(e) => Err(e),
    }
}

/// The settings that a first run starts with: the three answers as they were
/// given, and `python` as the default language.
pub fn setup(cookies: String, python_path: String, rust_path: String) -> (c: Config)
    ensures
        c@ == (ConfigView {
            cookies: cookies@,
            python_path: python_path@,
            rust_path: rust_path@,
            default: "python"@,
        }),
{
    Config { cookies, python_path, rust_path, default: "python".to_owned() }
}

/// The settings `c` with another session cookie.
pub fn with_cookie(c: Config, cookie: String) -> (r: Config)
    ensures
        r@ == (ConfigView { cookies: cookie@, ..c@ }),
{
    Config {
        cookies: cookie,
        python_path: c.python_path,
        rust_path: c.rust_path,
        default: c.default,
    }
}

/// The settings `c` as shown to the user: a heading, then each key, in
/// green, with its value.
pub open spec fn rendered_config(c: ConfigView) -> Seq<char> {
    "Got config \n    \x1b[32mcookies\x1b[0m="@ + c.cookies
        + "\n    \x1b[32mpython_path\x1b[0m="@ + c.python_path
        + "\n    \x1b[32mrust_path\x1b[0m="@ + c.rust_path
        + "\n    \x1b[32mdefault\x1b[0m="@ + c.default
}

impl Config {
    /// The settings as shown to the user.
    pub fn render(&self) -> (text: String)
        ensures
            text@ == rendered_config(self@),
    {
        let mut text = String::new();
        text.append("Got config \n    \x1b[32mcookies\x1b[0m=");
        text.append(self.cookies.as_str());
        text.append("\n    \x1b[32mpython_path\x1b[0m=");
        text.append(self.python_path.as_str());
        text.append("\n    \x1b[32mrust_path\x1b[0m=");
        text.append(self.rust_path.as_str());
        text.append("\n    \x1b[32mdefault\x1b[0m=");
        text.append(self.default.as_str());
        assert(text@ =~= rendered_config(self@));
        text
    }
}

} // verus!
