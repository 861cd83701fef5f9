//! The key-value configuration text: one `key=value` pair per line.
//!
//! Keys are matched after folding their ASCII letters to lowercase, a
//! later line wins over an earlier one with the same key, and empty lines
//! are skipped. A value runs from the first equals sign to the next one
//! or the line's end. Reading the file itself happens outside the
//! library; the library reads the meaning of its text.

use vstd::prelude::*;
use vstd::string::StrSliceExecFns;
use vstd::string::StringExecFns;

verus! {

/// The remote service's configuration: its credential and address.
#[derive(Debug, Clone)]
pub struct Config {
    pub api_key: String,
    pub base_url: String,
}

/// How many characters stand before the first `stop`, or all of them when
/// no `stop` occurs.
pub open spec fn prefix_len(s: Seq<char>, stop: char) -> nat
    decreases s.len(),
{
    if s.len() == 0 || s[0] == stop {
        0
    } else {
        1 + prefix_len(s.drop_first(), stop)
    }
}

/// The lines of a text: the pieces between its newlines.
pub open spec fn split_lines(s: Seq<char>) -> Seq<Seq<char>>
    decreases s.len(),
{
    let n = prefix_len(s, '\n') as int;
    if n >= s.len() {
        seq![s]
    } else {
        seq![s.subrange(0, n)] + split_lines(s.subrange(n + 1, s.len() as int))
    }
}

/// The part of a line before its first equals sign; the whole line when it
/// has none.
pub open spec fn line_key(line: Seq<char>) -> Seq<char> {
    line.subrange(0, prefix_len(line, '=') as int)
}

/// The part of a line between its first equals sign and the next one or
/// the end; nothing when the line has no equals sign at all.
pub open spec fn line_value(line: Seq<char>) -> Option<Seq<char>> {
    let k = prefix_len(line, '=') as int;
    if k >= line.len() {
        None
    } else {
        let rest = line.subrange(k + 1, line.len() as int);
        Some(rest.subrange(0, prefix_len(rest, '=') as int))
    }
}

/// A character with its one ASCII capital folded to lowercase.
pub open spec fn ascii_lower_char(c: char) -> char {
    if 65 <= c as u32 && c as u32 <= 90 {
        (((c as u32 + 32) as u8) as char)
    } else {
        c
    }
}

/// A text with its ASCII capitals folded to lowercase.
pub open spec fn ascii_lower(s: Seq<char>) -> Seq<char> {
    s.map_values(|c: char| ascii_lower_char(c))
}

/// The value the text's lines give a key: the value of the last non-empty
/// line whose folded key is the given one, among lines that have a value
/// at all.
pub open spec fn config_value(lines: Seq<Seq<char>>, key: Seq<char>) -> Option<Seq<char>>
    decreases lines.len(),
{
    if lines.len() == 0 {
        None
    } else if lines.last().len() > 0 && ascii_lower(line_key(lines.last())) == key && line_value(
        lines.last(),
    ) is Some {
        line_value(lines.last())
    } else {
        config_value(lines.drop_last(), key)
    }
}

/// Whether the text parses as a configuration: every non-empty line
/// carries an equals sign, and both required keys are given.
pub open spec fn parseable(s: Seq<char>) -> bool {
    &&& forall|i: int|
        0 <= i < split_lines(s).len() ==> ((#[trigger] split_lines(s)[i]).len() == 0
            || line_value(split_lines(s)[i]) is Some)
    &&& config_value(split_lines(s), "api_key"@) is Some
    &&& config_value(split_lines(s), "base_url"@) is Some
}

/// A scan that found no `stop` before position `k`, and one at `k` unless
/// it reached the end, pins the prefix length down.
proof fn lemma_prefix_len_of(t: Seq<char>, stop: char, k: int)
    requires
        0 <= k <= t.len(),
        forall|i: int| 0 <= i < k ==> t[i] != stop,
        k < t.len() ==> t[k] == stop,
    ensures
        prefix_len(t, stop) == k,
    decreases k,
{
    if k == 0 {
    } else {
        assert(t[0] != stop);
        lemma_prefix_len_of(t.drop_first(), stop, k - 1);
    }
}

/// The position of the first `stop` in `[from, end)`, or `end` if none.
fn scan_until(s: &str, from: usize, end: usize, stop: char) -> (r: usize)
    requires
        from <= end <= s@.len(),
    ensures
        from <= r <= end,
        forall|i: int| from <= i < r ==> s@[i] != stop,
        r < end ==> s@[r as int] == stop,
{
    let mut j = from;
    while j < end
        invariant
            from <= j <= end,
            end <= s@.len(),
            forall|i: int| from <= i < j ==> s@[i] != stop,
        decreases end - j,
    {
        if s.get_char(j) == stop {
            return j;
        }
        j = j + 1;
    }
    j
}

/// One character, folded.
fn lower_char(c: char) -> (r: char)
    ensures
        r == ascii_lower_char(c),
{
    let u = c as u32;
    if 65 <= u && u <= 90 {
        ((u + 32) as u8) as char
    } else {
        c
    }
}

/// Whether folding the first text gives exactly the second.
fn eq_lower(a: &str, b: &str) -> (r: bool)
    ensures
        r == (ascii_lower(a@) == b@),
{
    let na = a.unicode_len();
    let nb = b.unicode_len();
    if na != nb {
        proof {
            assert(ascii_lower(a@).len() == a@.len());
        }
        return false;
    }
    let mut k: usize = 0;
    while k < na
        invariant
            0 <= k <= na,
            na == a@.len(),
            na == b@.len(),
            forall|i: int| 0 <= i < k ==> ascii_lower_char(a@[i]) == b@[i],
        decreases na - k,
    {
        if lower_char(a.get_char(k)) != b.get_char(k) {
            proof {
                assert(ascii_lower(a@)[k as int] == ascii_lower_char(a@[k as int]));
            }
            return false;
        }
        k = k + 1;
    }
    proof {
        assert(ascii_lower(a@) =~= b@);
    }
    true
}

/// Read the configuration from the text of its file, if the text parses:
/// every non-empty line must carry an equals sign, and both the `api_key`
/// and the `base_url` key must be given, under any ASCII casing; the last
/// line naming a key wins.
#[verifier::rlimit(50)]
pub fn parse_config(content: &str) -> (r: Option<Config>)
    ensures
        r is Some <==> parseable(content@),
        r matches Some(c) ==> Some(c.api_key@) == config_value(split_lines(content@), "api_key"@)
            && Some(c.base_url@) == config_value(split_lines(content@), "base_url"@),
{
    let n = content.unicode_len();
    let mut api: Option<String> = None;
    let mut base: Option<String> = None;
    let mut pos: usize = 0;
    let ghost mut done: Seq<Seq<char>> = Seq::empty();
    proof {
        assert(content@.subrange(0, n as int) =~= content@);
        assert(split_lines(content@) =~= done + split_lines(content@.subrange(0, n as int)));
    }
    loop
        invariant_except_break
            0 <= pos <= n,
            split_lines(content@) == done + split_lines(
                content@.subrange(pos as int, n as int),
            ),
        invariant
            n == content@.len(),
            forall|i: int|
                0 <= i < done.len() ==> ((#[trigger] done[i]).len() == 0 || line_value(
                    done[i],
                ) is Some),
            api matches Some(v) ==> Some(v@) == config_value(done, "api_key"@),
            api is None ==> config_value(done, "api_key"@) is None,
            base matches Some(v) ==> Some(v@) == config_value(done, "base_url"@),
            base is None ==> config_value(done, "base_url"@) is None,
        ensures
            done == split_lines(content@),
        decreases n - pos,
    {
        let ghost rest = content@.subrange(pos as int, n as int);
        let line_end = scan_until(content, pos, n, '\n');
        let ghost line = content@.subrange(pos as int, line_end as int);
        proof {
            assert forall|i: int| 0 <= i < line_end - pos implies rest[i] != '\n' by {
                assert(rest[i] == content@[pos + i]);
            };
            if line_end < n {
                assert(rest[line_end - pos] == content@[line_end as int]);
            }
            lemma_prefix_len_of(rest, '\n', line_end - pos);
            assert(rest.subrange(0, line_end - pos) =~= line);
        }
        if line_end > pos {
            let eq1 = scan_until(content, pos, line_end, '=');
            proof {
                assert forall|i: int| 0 <= i < eq1 - pos implies line[i] != '=' by {
                    assert(line[i] == content@[pos + i]);
                };
                if eq1 < line_end {
                    assert(line[eq1 - pos] == content@[eq1 as int]);
                }
                lemma_prefix_len_of(line, '=', eq1 - pos);
            }
            if eq1 == line_end {
                // a non-empty line without an equals sign: no configuration
                proof {
                    assert(line_value(line) is None);
                    if (prefix_len(rest, '\n') as int) >= rest.len() {
                        assert(split_lines(rest)[0] == rest);
                        assert(rest =~= line);
                    } else {
                        assert(split_lines(rest)[0] == rest.subrange(
                            0,
                            prefix_len(rest, '\n') as int,
                        ));
                    }
                    assert(split_lines(content@)[done.len() as int] == line);
                    assert(!parseable(content@));
                }
                return None;
            }
            // the line's pieces: its key, and its value up to a second
            // equals sign or the end
            let eq2 = scan_until(content, eq1 + 1, line_end, '=');
            let ghost after = line.subrange(eq1 - pos + 1, line.len() as int);
            proof {
                assert(after =~= content@.subrange(eq1 + 1, line_end as int));
                assert forall|i: int| 0 <= i < eq2 - (eq1 + 1) implies after[i] != '=' by {
                    assert(after[i] == content@[eq1 + 1 + i]);
                };
                if eq2 < line_end {
                    assert(after[eq2 - (eq1 + 1)] == content@[eq2 as int]);
                }
                lemma_prefix_len_of(after, '=', eq2 - (eq1 + 1));
                assert(line_value(line) == Some(after.subrange(0, eq2 - (eq1 + 1))));
                assert(after.subrange(0, eq2 - (eq1 + 1)) =~= content@.subrange(
                    eq1 + 1,
                    eq2 as int,
                ));
                assert(line_key(line) =~= content@.subrange(pos as int, eq1 as int));
            }
            let key = content.substring_char(pos, eq1);
            let value = content.substring_char(eq1 + 1, eq2);
            let is_api = eq_lower(key, "api_key");
            let is_base = eq_lower(key, "base_url");
            proof {
                reveal_strlit("api_key");
                reveal_strlit("base_url");
                assert("api_key"@.len() != "base_url"@.len());
            }
            if is_api {
                api = Some(value.to_owned());
            } else if is_base {
                base = Some(value.to_owned());
            }
            proof {
                let pushed = done.push(line);
                assert(pushed.drop_last() =~= done);
                assert(pushed.last() == line);
                done = pushed;
            }
        } else {
            // an empty line is skipped
            proof {
                let pushed = done.push(line);
                assert(pushed.drop_last() =~= done);
                assert(pushed.last() == line);
                assert(line.len() == 0);
                done = pushed;
            }
        }
        if line_end == n {
            proof {
                assert((prefix_len(rest, '\n') as int) >= rest.len());
                assert(split_lines(rest) == seq![rest]);
                assert(rest =~= line);
                assert(done =~= split_lines(content@));
            }
            break;
        }
        proof {
            let rest2 = rest.subrange(line_end - pos + 1, rest.len() as int);
            assert((prefix_len(rest, '\n') as int) < rest.len());
            assert(split_lines(rest) == seq![rest.subrange(0, line_end - pos)] + split_lines(
                rest2,
            ));
            assert(rest.subrange(0, line_end - pos) =~= line);
            assert(rest2 =~= content@.subrange(line_end + 1, n as int));
            assert(done + split_lines(content@.subrange(line_end + 1, n as int)) =~= split_lines(
                content@,
            ));
        }
        pos = line_end + 1;
    }
    match (api, base) {
        (Some(a), Some(b)) => Some(Config { api_key: a, base_url: b }),
        _ => None,
    }
}

impl Config {
    /// Read the configuration from the text of its file. The text must
    /// parse (see `parse_config`, which checks instead of requiring).
    pub fn parse(content: &str) -> (r: Config)
        requires
            parseable(content@),
        ensures
            Some(r.api_key@) == config_value(split_lines(content@), "api_key"@),
            Some(r.base_url@) == config_value(split_lines(content@), "base_url"@),
    {
        parse_config(content).unwrap()
    }
}

} // verus!
