//! `.properties` files: `key=value` lines, `#` and `!` comments, and
//! backslash escapes in values.

use vstd::prelude::*;
use crate::files::{file_name_of, FileMeta, FileSuffix};
use crate::java::md5_hex;
use crate::text::{chars_of, lines_of, split_lines, string_of, trim_range, trim_seq};
use crate::ordered_map::{bind, OrderedMap};
use crate::types::{pairs_view, strs_view};

verus! {

broadcast use vstd::string::group_string_axioms;

/// The character that a backslash followed by `c` stands for.
pub open spec fn escaped(c: char) -> char {
    if c == 'n' {
        '\n'
    } else if c == 't' {
        '\t'
    } else if c == 'r' {
        '\r'
    } else {
        c
    }
}

/// `s` with its escapes resolved; a lone backslash at the end is dropped.
pub open spec fn unescape_seq(s: Seq<char>) -> Seq<char>
    decreases s.len(),
{
    if s.len() == 0 {
        Seq::empty()
    } else if s[0] == '\\' {
        if s.len() == 1 {
            Seq::empty()
        } else {
            seq![escaped(s[1])] + unescape_seq(s.subrange(2, s.len() as int))
        }
    } else {
        seq![s[0]] + unescape_seq(s.drop_first())
    }
}

fn unescape_chars(s: &Vec<char>) -> (r: Vec<char>)
    ensures
        r@ == unescape_seq(s@),
{
    let n = s.len();
    let mut out: Vec<char> = Vec::new();
    let mut i: usize = 0;
    assert(s@.subrange(0, n as int) =~= s@);
    while i < n
        invariant
            n == s@.len(),
            i <= n,
            out@ + unescape_seq(s@.subrange(i as int, n as int)) == unescape_seq(s@),
        decreases n - i,
    {
        let ghost rest = s@.subrange(i as int, n as int);
        if s[i] == '\\' {
            if i + 1 == n {
                assert(out@ + Seq::<char>::empty() =~= out@);
                assert(s@.subrange(n as int, n as int) =~= Seq::<char>::empty());
                assert(unescape_seq(Seq::<char>::empty()) == Seq::<char>::empty());
                i = n;
            } else {
                let c = s[i + 1];
                let e = if c == 'n' {
                    '\n'
                } else if c == 't' {
                    '\t'
                } else if c == 'r' {
                    '\r'
                } else {
                    c
                };
                assert(rest.subrange(2, rest.len() as int) =~= s@.subrange(i + 2, n as int));
                assert(out@.push(e) + unescape_seq(s@.subrange(i + 2, n as int)) =~= out@ + (seq![e] + unescape_seq(s@.subrange(i + 2, n as int))));
                out.push(e);
                i = i + 2;
            }
        } else {
            let c = s[i];
            assert(rest.drop_first() =~= s@.subrange(i + 1, n as int));
            assert(out@.push(c) + unescape_seq(s@.subrange(i + 1, n as int)) =~= out@ + (seq![c] + unescape_seq(s@.subrange(i + 1, n as int))));
            out.push(c);
            i = i + 1;
        }
    }
    assert(s@.subrange(n as int, n as int) =~= Seq::<char>::empty());
    assert(out@ + Seq::<char>::empty() =~= out@);
    out
}

/// Index of the first `c` in `s` at or after `i`.
pub open spec fn find_char(s: Seq<char>, c: char, i: int) -> Option<int>
    decreases s.len() - i,
{
    if i < 0 || i >= s.len() {
        None
    } else if s[i] == c {
        Some(i)
    } else {
        find_char(s, c, i + 1)
    }
}

proof fn lemma_find_char_bounds(s: Seq<char>, c: char, i: int)
    ensures
        find_char(s, c, i) matches Some(k) ==> 0 <= k < s.len(),
    decreases s.len() - i,
{
    if 0 <= i < s.len() && s[i] != c {
        lemma_find_char_bounds(s, c, i + 1);
    }
}

fn index_of_char(s: &Vec<char>, c: char) -> (r: Option<usize>)
    ensures
        r is Some <==> find_char(s@, c, 0) is Some,
        r matches Some(k) ==> k < s@.len() && find_char(s@, c, 0) == Some(k as int),
{
    proof {
        lemma_find_char_bounds(s@, c, 0);
    }
    let mut i: usize = 0;
    while i < s.len()
        invariant
            i <= s@.len(),
            find_char(s@, c, 0) == find_char(s@, c, i as int),
        decreases s@.len() - i,
    {
        if s[i] == c {
            return Some(i);
        }
        i = i + 1;
    }
    None
}

/// What one line of a properties file is.
pub enum LineEntry {
    Blank,
    Comment(Seq<char>),
    Pair(Seq<char>, Seq<char>),
    Other,
}

/// Reads one line: blank once trimmed, a comment when it starts with `#`
/// or `!`, a pair split at its first `=` with both sides trimmed and the
/// value unescaped, and otherwise nothing.
pub open spec fn entry_of(line: Seq<char>) -> LineEntry {
    let t = trim_seq(line);
    if t.len() == 0 {
        LineEntry::Blank
    } else if t[0] == '#' || t[0] == '!' {
        LineEntry::Comment(t)
    } else {
        match find_char(t, '=', 0) {
            Some(p) => LineEntry::Pair(
                trim_seq(t.subrange(0, p)),
                unescape_seq(trim_seq(t.subrange(p + 1, t.len() as int))),
            ),
            None => LineEntry::Other,
        }
    }
}

pub open spec fn pairs_upto(ls: Seq<Seq<char>>, n: int) -> Seq<(Seq<char>, Seq<char>)>
    decreases n,
{
    if n <= 0 {
        Seq::empty()
    } else {
        match entry_of(ls[n - 1]) {
            LineEntry::Pair(k, v) => pairs_upto(ls, n - 1).push((k, v)),
            _ => pairs_upto(ls, n - 1),
        }
    }
}

pub open spec fn comments_upto(ls: Seq<Seq<char>>, n: int) -> Seq<Seq<char>>
    decreases n,
{
    if n <= 0 {
        Seq::empty()
    } else {
        match entry_of(ls[n - 1]) {
            LineEntry::Comment(c) => comments_upto(ls, n - 1).push(c),
            _ => comments_upto(ls, n - 1),
        }
    }
}

/// The `key=value` pairs of a properties text, in order.
pub open spec fn properties_of(content: Seq<char>) -> Seq<(Seq<char>, Seq<char>)> {
    pairs_upto(lines_of(content), lines_of(content).len() as int)
}

/// The comment lines of a properties text, trimmed, in order.
pub open spec fn comments_of(content: Seq<char>) -> Seq<Seq<char>> {
    comments_upto(lines_of(content), lines_of(content).len() as int)
}

/// The value of the first pair with key `key`.
pub open spec fn first_value(ps: Seq<(Seq<char>, Seq<char>)>, key: Seq<char>, i: int) -> Option<Seq<char>>
    decreases ps.len() - i,
{
    if i < 0 || i >= ps.len() {
        None
    } else if ps[i].0 == key {
        Some(ps[i].1)
    } else {
        first_value(ps, key, i + 1)
    }
}

/// A parsed properties file.
#[derive(Clone, Debug)]
pub struct PropertiesSourceFile {
    pub file_meta: FileMeta,
    pub properties: Vec<(String, String)>,
    pub properties_map: OrderedMap,
    pub comments: Vec<String>,
}

/// Reads `.properties` text.
pub struct PropertiesFileParser {}

/// Reads `.properties` files into [`PropertiesSourceFile`]s.
pub struct PropertiesParser {
    pub inner: PropertiesFileParser,
}

impl PropertiesParser {
    pub fn new() -> (r: PropertiesParser) {
        PropertiesParser { inner: PropertiesFileParser::new() }
    }
}

pub open spec fn bind_all(es: Seq<(Seq<char>, Seq<char>)>, ps: Seq<(Seq<char>, Seq<char>)>, n: int) -> Seq<(Seq<char>, Seq<char>)>
    decreases n,
{
    if n <= 0 {
        es
    } else {
        bind(bind_all(es, ps, n - 1), ps[n - 1].0, ps[n - 1].1)
    }
}

/// The pairs of the first `n` files bound in order into one map.
pub open spec fn merged_upto(files: Seq<PropertiesSourceFile>, n: int) -> Seq<(Seq<char>, Seq<char>)>
    decreases n,
{
    if n <= 0 {
        Seq::empty()
    } else {
        let ps = pairs_view(files[n - 1].properties@);
        bind_all(merged_upto(files, n - 1), ps, ps.len() as int)
    }
}

impl PropertiesFileParser {
    pub fn new() -> (r: PropertiesFileParser) {
        PropertiesFileParser {}
    }

    /// Resolves the escapes of a value: `\n`, `\t`, `\r`, `\\`, and a
    /// backslash before any other character stands for that character.
    pub fn unescape_properties(&self, value: &str) -> (r: String)
        ensures
            r@ == unescape_seq(value@),
    {
        let v = chars_of(value);
        let u = unescape_chars(&v);
        string_of(&u)
    }

    /// The pairs and the comment lines of a properties text, in order.
    pub fn parse_content_with_comments(&self, content: &str) -> (r: (Vec<(String, String)>, Vec<String>))
        ensures
            pairs_view(r.0@) == properties_of(content@),
            strs_view(r.1@) == comments_of(content@),
    {
        let all = chars_of(content);
        let lines = split_lines(&all);
        let ghost ls = lines@.map_values(|l: Vec<char>| l@);
        let mut props: Vec<(String, String)> = Vec::new();
        let mut comments: Vec<String> = Vec::new();
        let mut i: usize = 0;
        while i < lines.len()
            invariant
                i <= lines@.len(),
                ls == lines@.map_values(|l: Vec<char>| l@),
                ls == lines_of(content@),
                pairs_view(props@) == pairs_upto(ls, i as int),
                strs_view(comments@) == comments_upto(ls, i as int),
            decreases lines@.len() - i,
        {
            let line = &lines[i];
            let t = trim_range(line, 0, line.len());
            assert(line@.subrange(0, line@.len() as int) =~= line@);
            assert(t@ == trim_seq(ls[i as int]));
            if t.len() == 0 {
            } else if t[0] == '#' || t[0] == '!' {
                let c = string_of(&t);
                proof {
                    assert(strs_view(comments@.push(c)) =~= strs_view(comments@).push(c@));
                }
                comments.push(c);
            } else {
                match index_of_char(&t, '=') {
                    Some(p) => {
                        let k = trim_range(&t, 0, p);
                        let raw = trim_range(&t, p + 1, t.len());
                        let v = unescape_chars(&raw);
                        let kv = (string_of(&k), string_of(&v));
                        proof {
                            assert(pairs_view(props@.push(kv)) =~= pairs_view(props@).push((kv.0@, kv.1@)));
                        }
                        props.push(kv);
                    },
                    None => {},
                }
            }
            i = i + 1;
        }
        (props, comments)
    }

    /// The pairs of a properties text, in order.
    pub fn parse_content(&self, content: &str) -> (r: Vec<(String, String)>)
        ensures
            pairs_view(r@) == properties_of(content@),
    {
        let (props, _) = self.parse_content_with_comments(content);
        props
    }

    /// The pairs of a properties text as a map; a later pair of the same key
    /// replaces the value of an earlier one.
    pub fn parse_to_map(&self, content: &str) -> (r: OrderedMap)
        ensures
            r.wf(),
            r.entries_view() == bind_all(Seq::empty(), properties_of(content@), properties_of(content@).len() as int),
    {
        let props = self.parse_content(content);
        let mut m = OrderedMap::new();
        let mut i: usize = 0;
        while i < props.len()
            invariant
                i <= props@.len(),
                pairs_view(props@) == properties_of(content@),
                m.wf(),
                m.entries_view() == bind_all(Seq::empty(), pairs_view(props@), i as int),
            decreases props@.len() - i,
        {
            m.insert(props[i].0.clone(), props[i].1.clone());
            i = i + 1;
        }
        m
    }

    /// The value of the first pair with key `key`.
    pub fn get_property(&self, content: &str, key: &str) -> (r: Option<String>)
        ensures
            crate::types::opt_view(r) == first_value(properties_of(content@), key@, 0),
    {
        let props = self.parse_content(content);
        let k = chars_of(key);
        let mut i: usize = 0;
        while i < props.len()
            invariant
                i <= props@.len(),
                pairs_view(props@) == properties_of(content@),
                k@ == key@,
                first_value(properties_of(content@), key@, 0) == first_value(properties_of(content@), key@, i as int),
            decreases props@.len() - i,
        {
            let pk = chars_of(props[i].0.as_str());
            assert(pairs_view(props@)[i as int] == (props@[i as int].0@, props@[i as int].1@));
            if crate::text::seq_eq(&pk, &k) {
                return Some(props[i].1.clone());
            }
            i = i + 1;
        }
        None
    }

    /// Reads a properties text that was found at `path`.
    pub fn parse_source(&self, path: &str, content: &str) -> (r: PropertiesSourceFile)
        ensures
            pairs_view(r.properties@) == properties_of(content@),
            strs_view(r.comments@) == comments_of(content@),
            r.properties_map.wf(),
            r.properties_map.entries_view() == bind_all(Seq::empty(), properties_of(content@), properties_of(content@).len() as int),
            r.file_meta.path@ == path@,
            r.file_meta.suffix == FileSuffix::Property,
            r.file_meta.hash_value@ == md5_hex(content@),
            r.file_meta.name@ == (match file_name_of(path@) {
                Some(n) => n,
                None => "unknown"@,
            }),
    {
        let (properties, comments) = self.parse_content_with_comments(content);
        let properties_map = self.parse_to_map(content);
        PropertiesSourceFile {
            file_meta: FileMeta::new(path, FileSuffix::Property, content),
            properties,
            properties_map,
            comments,
        }
    }

    /// The pairs of all files in one map; a later file's value of a key
    /// replaces an earlier one's.
    pub fn merge_properties(&self, files: &[PropertiesSourceFile]) -> (r: OrderedMap)
        ensures
            r.wf(),
            r.entries_view() == merged_upto(files@, files@.len() as int),
    {
        let mut merged = OrderedMap::new();
        let mut f: usize = 0;
        while f < files.len()
            invariant
                f <= files@.len(),
                merged.wf(),
                merged.entries_view() == merged_upto(files@, f as int),
            decreases files@.len() - f,
        {
            let ps = &files[f].properties;
            let mut i: usize = 0;
            while i < ps.len()
                invariant
                    f < files@.len(),
                    ps == files@[f as int].properties,
                    i <= ps@.len(),
                    merged.wf(),
                    merged.entries_view() == bind_all(merged_upto(files@, f as int), pairs_view(ps@), i as int),
                decreases ps@.len() - i,
            {
                merged.insert(ps[i].0.clone(), ps[i].1.clone());
                i = i + 1;
            }
            f = f + 1;
        }
        merged
    }
}

} // verus!
