use vstd::prelude::*;
use crate::strings::{chars_to_string, concat, owned, str_chars};

verus! {

broadcast use vstd::string::group_string_axioms;

/// Characters allowed in a version component are kept; others become `-`.
pub open spec fn version_char(c: char) -> char {
    if ('0' <= c <= '9') || ('A' <= c <= 'Z') || ('a' <= c <= 'z') || c == '-' || c == '.' {
        c
    } else {
        '-'
    }
}

/// `-` and `.` are trimmed from both ends of a version component.
pub open spec fn is_trimmed_char(c: char) -> bool {
    c == '-' || c == '.'
}

/// The index of the first character at or after `i` that is not trimmed.
pub open spec fn component_start(s: Seq<char>, i: int) -> int
    decreases s.len() - i,
{
    if 0 <= i < s.len() && is_trimmed_char(s[i]) {
        component_start(s, i + 1)
    } else {
        i
    }
}

/// The index just past the last character before `j`, not below `lo`, that
/// is not trimmed.
pub open spec fn component_end(s: Seq<char>, lo: int, j: int) -> int
    decreases j,
{
    if 0 <= lo < j <= s.len() && is_trimmed_char(s[j - 1]) {
        component_end(s, lo, j - 1)
    } else {
        j
    }
}

/// A build channel or commit made safe for a version string: disallowed
/// characters replaced by `-`, then `-` and `.` trimmed from both ends.
pub open spec fn version_component(s: Seq<char>) -> Seq<char> {
    let m = Seq::new(s.len(), |i: int| version_char(s[i]));
    let a = component_start(m, 0);
    m.subrange(a, component_end(m, a, m.len() as int))
}

/// The first twelve characters of a commit id.
pub open spec fn short_commit(s: Seq<char>) -> Seq<char> {
    if s.len() <= 12 {
        s
    } else {
        s.take(12)
    }
}

/// The version the command reports: the package version, followed by
/// `-channel` when a usable build channel is set, and by `+commit` when a
/// usable build commit is set too.
pub open spec fn cli_version_spec(package: Seq<char>, channel: Option<Seq<char>>, commit: Option<Seq<char>>) -> Seq<char> {
    match channel {
        None => package,
        Some(ch) => {
            let ch = version_component(ch);
            if ch.len() == 0 {
                package
            } else {
                let c = match commit {
                    Some(c) => version_component(short_commit(c)),
                    None => Seq::empty(),
                };
                if c.len() == 0 {
                    package + "-"@ + ch
                } else {
                    package + "-"@ + ch + "+"@ + c
                }
            }
        },
    }
}

fn version_char_exec(c: char) -> (r: char)
    ensures
        r == version_char(c),
{
    if ('0' <= c && c <= '9') || ('A' <= c && c <= 'Z') || ('a' <= c && c <= 'z') || c == '-' || c
        == '.' {
        c
    } else {
        '-'
    }
}

/// A build channel or commit made safe for a version string.
pub fn sanitize_version_component(value: &[char]) -> (r: Vec<char>)
    ensures
        r@ == version_component(value@),
{
    let mut mapped: Vec<char> = Vec::new();
    let mut k: usize = 0;
    while k < value.len()
        invariant
            k <= value@.len(),
            mapped@ == Seq::new(k as nat, |i: int| version_char(value@[i])),
        decreases value@.len() - k,
    {
        mapped.push(version_char_exec(value[k]));
        k = k + 1;
        assert(mapped@ =~= Seq::new(k as nat, |i: int| version_char(value@[i])));
    }
    let ghost m = mapped@;
    assert(m =~= Seq::new(value@.len(), |i: int| version_char(value@[i])));
    let mut a: usize = 0;
    while a < mapped.len() && (mapped[a] == '-' || mapped[a] == '.')
        invariant
            a <= m.len(),
            mapped@ == m,
            component_start(m, 0) == component_start(m, a as int),
        decreases m.len() - a,
    {
        a = a + 1;
    }
    let mut e: usize = mapped.len();
    while e > a && (mapped[e - 1] == '-' || mapped[e - 1] == '.')
        invariant
            a <= e <= m.len(),
            mapped@ == m,
            component_end(m, a as int, m.len() as int) == component_end(m, a as int, e as int),
        decreases e,
    {
        e = e - 1;
    }
    let mut out: Vec<char> = Vec::new();
    let mut k: usize = a;
    while k < e
        invariant
            a <= k <= e <= m.len(),
            mapped@ == m,
            out@ == m.subrange(a as int, k as int),
        decreases e - k,
    {
        out.push(mapped[k]);
        k = k + 1;
        assert(out@ =~= m.subrange(a as int, k as int));
    }
    out
}

/// The first twelve characters of a commit id.
pub fn short_commit_chars(value: &[char]) -> (r: Vec<char>)
    ensures
        r@ == short_commit(value@),
{
    let mut out: Vec<char> = Vec::new();
    let mut k: usize = 0;
    while k < value.len() && k < 12
        invariant
            k <= value@.len(),
            k <= 12,
            out@ == value@.take(k as int),
        decreases value@.len() - k,
    {
        out.push(value[k]);
        k = k + 1;
        assert(out@ =~= value@.take(k as int));
    }
    proof {
        if value@.len() <= 12 {
            assert(value@.take(value@.len() as int) =~= value@);
        }
    }
    out
}

/// The version the command reports for the package version `package`, the
/// build channel `channel` and the build commit `commit`.
pub fn cli_version(package: &str, channel: Option<&str>, commit: Option<&str>) -> (r: String)
    ensures
        r@ == cli_version_spec(
            package@,
            match channel {
                Some(c) => Some(c@),
                None => None,
            },
            match commit {
                Some(c) => Some(c@),
                None => None,
            },
        ),
{
    let channel = match channel {
        None => {
            return owned(package);
        },
        Some(c) => sanitize_version_component(str_chars(c).as_slice()),
    };
    if channel.len() == 0 {
        return owned(package);
    }
    let commit = match commit {
        Some(c) => sanitize_version_component(short_commit_chars(str_chars(c).as_slice()).as_slice()),
        None => Vec::new(),
    };
    let mut out = concat(owned(package), "-");
    out = concat(out, chars_to_string(channel.as_slice()).as_str());
    if commit.len() > 0 {
        out = concat(out, "+");
        out = concat(out, chars_to_string(commit.as_slice()).as_str());
    }
    out
}

/// True for the characters a version component may hold.
pub open spec fn is_version_char(c: char) -> bool {
    ('0' <= c <= '9') || ('A' <= c <= 'Z') || ('a' <= c <= 'z') || c == '-' || c == '.'
}

proof fn lemma_component_start(s: Seq<char>, i: int)
    requires
        0 <= i <= s.len(),
    ensures
        i <= component_start(s, i) <= s.len(),
        component_start(s, i) < s.len() ==> !is_trimmed_char(s[component_start(s, i)]),
    decreases s.len() - i,
{
    if i < s.len() && is_trimmed_char(s[i]) {
        lemma_component_start(s, i + 1);
    }
}

proof fn lemma_component_end(s: Seq<char>, lo: int, j: int)
    requires
        0 <= lo <= j <= s.len(),
    ensures
        lo <= component_end(s, lo, j) <= j,
        component_end(s, lo, j) > lo ==> !is_trimmed_char(s[component_end(s, lo, j) - 1]),
    decreases j,
{
    if lo < j && is_trimmed_char(s[j - 1]) {
        lemma_component_end(s, lo, j - 1);
    }
}

/// A version component holds only digits, ASCII letters, `-` and `.`, and
/// neither starts nor ends with `-` or `.`.
pub proof fn law_version_component_is_clean(s: Seq<char>)
    ensures
        ({
            let v = version_component(s);
            &&& forall|i: int| 0 <= i < v.len() ==> is_version_char(#[trigger] v[i])
            &&& v.len() > 0 ==> !is_trimmed_char(v[0]) && !is_trimmed_char(v[v.len() - 1])
        }),
{
    let m = Seq::new(s.len(), |i: int| version_char(s[i]));
    lemma_component_start(m, 0);
    let a = component_start(m, 0);
    lemma_component_end(m, a, m.len() as int);
    let v = version_component(s);
    assert forall|i: int| 0 <= i < v.len() implies is_version_char(#[trigger] v[i]) by {
        assert(v[i] == m[a + i]);
    }
}

} // verus!
