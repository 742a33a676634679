use vstd::prelude::*;

verus! {

/// Whether two strings hold the same characters.
pub fn str_eq(a: &str, b: &str) -> (r: bool)
    ensures
        r == (a@ == b@),
{
    let n = a.unicode_len();
    if n != b.unicode_len() {
        return false;
    }
    let mut i: usize = 0;
    while i < n
        invariant
            n == a@.len(),
            n == b@.len(),
            i <= n,
            forall|j: int| 0 <= j < i ==> a@[j] == b@[j],
        decreases n - i,
    {
        if a.get_char(i) != b.get_char(i) {
            return false;
        }
        i = i + 1;
    }
    assert(a@ =~= b@);
    true
}


/// `s` without the run of `c` at its end.
pub open spec fn trim_end_spec(s: Seq<char>, c: char) -> Seq<char>
    decreases s.len(),
{
    if s.len() > 0 && s.last() == c {
        trim_end_spec(s.drop_last(), c)
    } else {
        s
    }
}

proof fn lemma_trim_end_prefix(s: Seq<char>, c: char, i: int)
    requires
        0 <= i <= s.len(),
        forall|j: int| i <= j < s.len() ==> #[trigger] s[j] == c,
    ensures
        trim_end_spec(s, c) == trim_end_spec(s.subrange(0, i), c),
    decreases s.len() - i,
{
    if i < s.len() {
        let t = s.drop_last();
        assert forall|j: int| i <= j < t.len() implies #[trigger] t[j] == c by {
            assert(t[j] == s[j]);
        }
        lemma_trim_end_prefix(t, c, i);
        assert(t.subrange(0, i) =~= s.subrange(0, i));
    } else {
        assert(s.subrange(0, i) =~= s);
    }
}

/// The part of `s` before its trailing run of `c`.
pub fn trim_end_char(s: &str, c: char) -> (r: &str)
    ensures
        r@ == trim_end_spec(s@, c),
{
    let n = s.unicode_len();
    let mut i = n;
    while i > 0
        invariant
            i <= n,
            n == s@.len(),
            forall|j: int| i <= j < n ==> #[trigger] s@[j] == c,
        ensures
            i <= n,
            forall|j: int| i <= j < n ==> #[trigger] s@[j] == c,
            i == 0 || s@[i - 1] != c,
        decreases i,
    {
        if s.get_char(i - 1) != c {
            break;
        }
        i = i - 1;
    }
    proof {
        lemma_trim_end_prefix(s@, c, i as int);
        assert(s@.subrange(0, i as int).len() == i);
        if i > 0 {
            assert(s@.subrange(0, i as int).last() == s@[i - 1]);
        }
    }
    s.substring_char(0, i)
}

/// `s` without `prefix`, when it starts with it.
pub fn strip_prefix<'a>(s: &'a str, prefix: &str) -> (r: Option<&'a str>)
    ensures
        match r {
            Some(rest) => s@.len() >= prefix@.len() && s@.subrange(0, prefix@.len() as int) == prefix@
                && rest@ == s@.subrange(prefix@.len() as int, s@.len() as int),
            None => !(s@.len() >= prefix@.len() && s@.subrange(0, prefix@.len() as int) == prefix@),
        },
{
    let n = s.unicode_len();
    let m = prefix.unicode_len();
    if m > n {
        return None;
    }
    let head = s.substring_char(0, m);
    if str_eq(head, prefix) {
        Some(s.substring_char(m, n))
    } else {
        None
    }
}

/// Whether "::" occurs somewhere in `s`.
pub open spec fn has_path_sep(s: Seq<char>) -> bool {
    exists|i: int| 0 <= i && i + 1 < s.len() && s[i] == ':' && #[trigger] s[i + 1] == ':'
}

/// The last of the pieces that splitting `s` at each "::" gives, the
/// separators being found from left to right without overlap.
pub open spec fn last_path_segment(s: Seq<char>) -> Seq<char>
    decreases s.len(),
{
    if s.len() >= 2 && s[0] == ':' && s[1] == ':' {
        last_path_segment(s.skip(2))
    } else if s.len() > 0 && has_path_sep(s.skip(1)) {
        last_path_segment(s.skip(1))
    } else {
        s
    }
}

proof fn lemma_no_sep_segment(s: Seq<char>)
    requires
        !has_path_sep(s),
    ensures
        last_path_segment(s) == s,
{
    if s.len() >= 2 && s[0] == ':' && s[1] == ':' {
        assert(s[0int + 1] == ':');
    }
    if s.len() > 0 && has_path_sep(s.skip(1)) {
        let i = choose|i: int| 0 <= i && i + 1 < s.skip(1).len() && s.skip(1)[i] == ':' && #[trigger] s.skip(1)[i + 1] == ':';
        assert(s[(i + 1) + 1] == ':');
    }
}

/// The last "::"-separated segment of a path such as a type name.
pub fn last_path_segment_of(s: &str) -> (r: &str)
    ensures
        r@ == last_path_segment(s@),
{
    let n = s.unicode_len();
    let mut i: usize = 0;
    let mut start: usize = 0;
    proof {
        assert(s@.skip(0) =~= s@);
        if !has_path_sep(s@) {
            lemma_no_sep_segment(s@);
        }
    }
    while n - i >= 2
        invariant
            n == s@.len(),
            start <= i <= n,
            last_path_segment(s@) == (if has_path_sep(s@.skip(i as int)) {
                last_path_segment(s@.skip(i as int))
            } else {
                s@.skip(start as int)
            }),
        decreases n - i,
    {
        let ghost t = s@.skip(i as int);
        if s.get_char(i) == ':' && s.get_char(i + 1) == ':' {
            proof {
                assert(t[0] == ':' && t[1] == ':');
                assert(t.skip(2) =~= s@.skip(i + 2));
                assert(t[0int + 1] == ':');
                if !has_path_sep(s@.skip(i + 2)) {
                    lemma_no_sep_segment(s@.skip(i + 2));
                }
            }
            i = i + 2;
            start = i;
        } else {
            proof {
                assert(t.skip(1) =~= s@.skip(i + 1));
                if has_path_sep(t) && !has_path_sep(t.skip(1)) {
                    let k = choose|k: int| 0 <= k && k + 1 < t.len() && t[k] == ':' && #[trigger] t[k + 1] == ':';
                    if k > 0 {
                        assert(t.skip(1)[(k - 1) + 1] == ':');
                    }
                }
            }
            i = i + 1;
        }
    }
    proof {
        let t = s@.skip(i as int);
        if has_path_sep(t) {
            let k = choose|k: int| 0 <= k && k + 1 < t.len() && t[k] == ':' && #[trigger] t[k + 1] == ':';
        }
    }
    s.substring_char(start, n)
}

} // verus!

verus! {

/// What `{:?}` writes for a string: the text in double quotes, with the
/// characters that need it escaped.
pub uninterp spec fn debug_escaped(s: Seq<char>) -> Seq<char>;

/// `<str as Debug>::fmt`, through `format!("{:?}", ..)`.
#[verifier::external_body]
pub(crate) fn debug_str(s: &str) -> (r: String)
    ensures
        r@ == debug_escaped(s@),
{
    format!("{:?}", s)
}

} // verus!

verus! {

/// The text that decoding `bytes` as UTF-8 gives when each invalid
/// sequence is replaced by U+FFFD.
pub uninterp spec fn utf8_lossy_text(bytes: Seq<u8>) -> Seq<char>;

/// `String::from_utf8_lossy`. Its documentation says that valid UTF-8 comes
/// back as the very text it encodes.
#[verifier::external_body]
pub(crate) fn utf8_lossy(bytes: &[u8]) -> (r: String)
    ensures
        r@ == utf8_lossy_text(bytes@),
        vstd::utf8::valid_utf8(bytes@) ==> r@ == vstd::utf8::decode_utf8(bytes@),
{
    String::from_utf8_lossy(bytes).into_owned()
}

} // verus!
