//! Settings read from a file of `KEY=value` lines.
use vstd::prelude::*;
use crate::keyed::{lemma_last_index, lemma_map_of_lookup, map_of};
use crate::text::{chars_of, first_index_of, lemma_first_index, same_text, trim_of, trim_text};

verus! {

/// The lines of `s` as `str::lines` gives them.
pub uninterp spec fn lines_of(s: Seq<char>) -> Seq<Seq<char>>;

/// Relies on `str::lines`: the lines depend on the characters of `s` alone.
#[verifier::external_body]
fn text_lines(s: &str) -> (r: Vec<String>)
    ensures
        r@.map_values(|l: String| l@) == lines_of(s@),
{
    s.lines().map(|l| l.to_string()).collect()
}

/// The decimal digit `d` as text.
pub open spec fn digit_text(d: int) -> Seq<char> {
    if d == 0 {
        "0"@
    } else if d == 1 {
        "1"@
    } else if d == 2 {
        "2"@
    } else if d == 3 {
        "3"@
    } else if d == 4 {
        "4"@
    } else if d == 5 {
        "5"@
    } else if d == 6 {
        "6"@
    } else if d == 7 {
        "7"@
    } else if d == 8 {
        "8"@
    } else {
        "9"@
    }
}

/// The decimal form of `n`.
pub open spec fn decimal_of(n: nat) -> Seq<char>
    decreases n,
{
    if n < 10 {
        digit_text(n as int)
    } else {
        decimal_of(n / 10) + digit_text((n % 10) as int)
    }
}

fn digit(d: usize) -> (r: &'static str)
    requires
        d < 10,
    ensures
        r@ == digit_text(d as int),
{
    if d == 0 {
        "0"
    } else if d == 1 {
        "1"
    } else if d == 2 {
        "2"
    } else if d == 3 {
        "3"
    } else if d == 4 {
        "4"
    } else if d == 5 {
        "5"
    } else if d == 6 {
        "6"
    } else if d == 7 {
        "7"
    } else if d == 8 {
        "8"
    } else {
        "9"
    }
}

/// The decimal form of `n`.
pub fn decimal(n: usize) -> (r: String)
    ensures
        r@ == decimal_of(n as nat),
    decreases n,
{
    if n < 10 {
        String::from_str(digit(n))
    } else {
        let mut r = decimal(n / 10);
        r.append(digit(n % 10));
        r
    }
}

/// `v` without one pair of matching quotes around it.
pub open spec fn unquoted(v: Seq<char>) -> Seq<char> {
    if v.len() >= 2 && ((v[0] == '"' && v.last() == '"') || (v[0] == '\'' && v.last() == '\'')) {
        v.subrange(1, v.len() - 1)
    } else {
        v
    }
}

/// `t` without a leading `export `.
pub open spec fn without_export(t: Seq<char>) -> Seq<char> {
    if t.len() >= 7 && t.subrange(0, 7) == "export "@ {
        t.subrange(7, t.len() as int)
    } else {
        t
    }
}

/// What a line of a settings file says: `Some(None)` for a blank line or a
/// comment, `Some(Some((key, value)))` for a setting, `None` for a line
/// without `=`. Key and value are trimmed; the value loses one pair of
/// matching quotes.
pub open spec fn config_line_of(line: Seq<char>) -> Option<Option<(Seq<char>, Seq<char>)>> {
    let t = trim_of(line);
    if t.len() == 0 || t[0] == '#' {
        Some(None)
    } else {
        let u = without_export(t);
        let i = first_index_of(u, '=');
        if i < 0 {
            None
        } else {
            Some(
                Some(
                    (
                        trim_of(u.subrange(0, i)),
                        unquoted(trim_of(u.subrange(i + 1, u.len() as int))),
                    ),
                ),
            )
        }
    }
}

/// The settings of `lines`, in order.
pub open spec fn config_entries(lines: Seq<Seq<char>>) -> Seq<(Seq<char>, Seq<char>)>
    decreases lines.len(),
{
    if lines.len() == 0 {
        Seq::empty()
    } else {
        let r = config_entries(lines.drop_last());
        match config_line_of(lines.last()) {
            Some(Some(kv)) => r.push(kv),
            _ => r,
        }
    }
}

/// Every line of `lines` is blank, a comment or a setting.
pub open spec fn all_lines_valid(lines: Seq<Seq<char>>) -> bool {
    forall|i: int| 0 <= i < lines.len() ==> (#[trigger] config_line_of(lines[i])) is Some
}

/// The message for the invalid line at position `i` (counted from 0).
pub open spec fn invalid_line_message(i: int, line: Seq<char>) -> Seq<char> {
    "Invalid config line "@ + decimal_of((i + 1) as nat) + ": "@ + line
}

fn parse_line(line: &str) -> (r: Option<Option<(String, String)>>)
    ensures
        match r {
            Some(Some((k, v))) => config_line_of(line@) == Some(Some((k@, v@))),
            Some(None) => config_line_of(line@) == Some(None::<(Seq<char>, Seq<char>)>),
            None => config_line_of(line@) is None,
        },
{
    let trimmed = trim_text(line);
    let t = trimmed.as_str();
    let n = t.unicode_len();
    if n == 0 || t.get_char(0) == '#' {
        return Some(None);
    }
    let u: &str = if n >= 7 && same_text(t.substring_char(0, 7), "export ") {
        t.substring_char(7, n)
    } else {
        t
    };
    let chars = chars_of(u);
    let mut i: usize = 0;
    while i < chars.len() && chars[i] != '='
        invariant
            chars@ == u@,
            i <= chars@.len(),
            forall|j: int| 0 <= j < i ==> chars@[j] != '=',
        decreases chars@.len() - i,
    {
        i += 1;
    }
    if i == chars.len() {
        proof {
            lemma_first_index(u@, '=', -1);
        }
        return None;
    }
    proof {
        lemma_first_index(u@, '=', i as int);
    }
    let m = chars.len();
    let key = trim_text(u.substring_char(0, i));
    let raw = trim_text(u.substring_char(i + 1, m));
    let v = raw.as_str();
    let vn = v.unicode_len();
    if vn >= 2 {
        let first = v.get_char(0);
        let last = v.get_char(vn - 1);
        if (first == '"' && last == '"') || (first == '\'' && last == '\'') {
            let inner = String::from_str(v.substring_char(1, vn - 1));
            return Some(Some((key, inner)));
        }
    }
    Some(Some((key, raw)))
}

/// Settings by key; a later line wins over an earlier one of the same key.
#[derive(Debug, Default, Clone)]
pub struct AppConfig {
    values: Vec<(String, String)>,
}

/// The settings as plain text pairs.
pub open spec fn pair_views(s: Seq<(String, String)>) -> Seq<(Seq<char>, Seq<char>)> {
    s.map_values(|p: (String, String)| (p.0@, p.1@))
}

impl AppConfig {
    /// The settings as a map from key to value.
    pub closed spec fn view(&self) -> Map<Seq<char>, Seq<char>> {
        map_of(pair_views(self.values@))
    }

    /// Settings with no key.
    pub fn new() -> (r: AppConfig)
        ensures
            r@ == Map::<Seq<char>, Seq<char>>::empty(),
    {
        let r = AppConfig { values: Vec::new() };
        assert(pair_views(r.values@) =~= Seq::<(Seq<char>, Seq<char>)>::empty());
        r
    }

    /// Reads settings from the text of a settings file: one `KEY=value` per
    /// line, with blank lines, `#` comments and a leading `export ` allowed.
    /// Fails on the first line that has no `=`.
    pub fn parse(content: &str) -> (r: Result<AppConfig, String>)
        ensures
            ({
                let lines = lines_of(content@);
                match r {
                    Ok(c) => all_lines_valid(lines) && c@ == map_of(config_entries(lines)),
                    Err(m) => exists|i: int|
                        0 <= i < lines.len() && (#[trigger] config_line_of(lines[i])) is None
                            && (forall|j: int| 0 <= j < i ==> (#[trigger] config_line_of(lines[j])) is Some)
                            && m@ == invalid_line_message(i, lines[i]),
                }
            }),
    {
        let lines = text_lines(content);
        let ghost ls = lines@.map_values(|l: String| l@);
        let mut values: Vec<(String, String)> = Vec::new();
        let mut i: usize = 0;
        assert(pair_views(values@) =~= config_entries(ls.subrange(0, 0)));
        while i < lines.len()
            invariant
                ls == lines@.map_values(|l: String| l@),
                ls == lines_of(content@),
                i <= lines@.len(),
                forall|j: int| 0 <= j < i ==> (#[trigger] config_line_of(ls[j])) is Some,
                pair_views(values@) == config_entries(ls.subrange(0, i as int)),
            decreases lines@.len() - i,
        {
            let ghost before = pair_views(values@);
            proof {
                let next = ls.subrange(0, i + 1);
                assert(next.drop_last() =~= ls.subrange(0, i as int));
                assert(next.last() == lines@[i as int]@);
            }
            match parse_line(lines[i].as_str()) {
                Some(Some(kv)) => {
                    values.push(kv);
                    assert(pair_views(values@) =~= before.push((kv.0@, kv.1@)));
                },
                Some(None) => {
                },
                None => {
                    let mut m = String::from_str("Invalid config line ");
                    let number = decimal(i + 1);
                    m.append(number.as_str());
                    m.append(": ");
                    m.append(lines[i].as_str());
                    assert(config_line_of(ls[i as int]) is None);
                    return Err(m);
                },
            }
            i += 1;
        }
        assert(ls.subrange(0, i as int) =~= ls);
        Ok(AppConfig { values })
    }

    /// The value of `key`, if set.
    pub fn get(&self, key: &str) -> (r: Option<String>)
        ensures
            match r {
                Some(v) => self@.contains_key(key@) && self@[key@] == v@,
                None => !self@.contains_key(key@),
            },
    {
        let ghost s = pair_views(self.values@);
        proof {
            lemma_map_of_lookup(s, key@);
        }
        let mut i: usize = self.values.len();
        while i > 0
            invariant
                s == pair_views(self.values@),
                i <= self.values@.len(),
                forall|j: int| i <= j < s.len() ==> s[j].0 != key@,
            decreases i,
        {
            if same_text(self.values[i - 1].0.as_str(), key) {
                proof {
                    lemma_last_index(s, key@, i - 1);
                    lemma_map_of_lookup(s, key@);
                    assert(s[i - 1] == (self.values@[i - 1].0@, self.values@[i - 1].1@));
                }
                let v = self.values[i - 1].1.clone();
                assert(v@ == s[i - 1].1);
                assert(self@[key@] == s[i - 1].1);
                return Some(v);
            }
            i -= 1;
        }
        proof {
            lemma_last_index(s, key@, -1);
            lemma_map_of_lookup(s, key@);
        }
        None
    }
}

} // verus!
