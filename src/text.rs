use vstd::prelude::*;

verus! {

/// The characters that Unicode gives the White_Space property.
pub open spec fn is_white_space(c: char) -> bool {
    let n = c as u32;
    (0x09 <= n && n <= 0x0d) || n == 0x20 || n == 0x85 || n == 0xa0 || n == 0x1680 || (0x2000
        <= n && n <= 0x200a) || n == 0x2028 || n == 0x2029 || n == 0x202f || n == 0x205f || n
        == 0x3000
}

/// `s` without its leading white space.
pub open spec fn trim_start_seq(s: Seq<char>) -> Seq<char>
    decreases s.len(),
{
    if s.len() > 0 && is_white_space(s[0]) {
        trim_start_seq(s.drop_first())
    } else {
        s
    }
}

/// `s` without its trailing white space.
pub open spec fn trim_end_seq(s: Seq<char>) -> Seq<char>
    decreases s.len(),
{
    if s.len() > 0 && is_white_space(s.last()) {
        trim_end_seq(s.drop_last())
    } else {
        s
    }
}

/// `s` without white space at either end.
pub open spec fn trim_seq(s: Seq<char>) -> Seq<char> {
    trim_end_seq(trim_start_seq(s))
}

/// `needle` occurs in `hay` as a run of consecutive characters.
pub open spec fn contains_seq(hay: Seq<char>, needle: Seq<char>) -> bool {
    exists|i: int|
        0 <= i && i + needle.len() <= hay.len() && #[trigger] hay.subrange(i, i + needle.len())
            == needle
}

/// The texts of a list of strings.
pub open spec fn texts(v: Seq<String>) -> Seq<Seq<char>> {
    v.map_values(|s: String| s@)
}

/// Relies on `str::trim`: removes leading and trailing White_Space characters.
#[verifier::external_body]
pub(crate) fn trim_text(s: &str) -> (r: String)
    ensures
        r@ == trim_seq(s@),
{
    s.trim().to_string()
}

/// Relies on `str::contains` with a `&str` pattern: whether `needle` is a
/// substring of `hay`.
#[verifier::external_body]
pub(crate) fn contains_text(hay: &str, needle: &str) -> (r: bool)
    ensures
        r == contains_seq(hay@, needle@),
{
    hay.contains(needle)
}

/// `segs` with `prefix` put in front of its first segment.
pub open spec fn prepend_first(prefix: Seq<char>, segs: Seq<Seq<char>>) -> Seq<Seq<char>>
    recommends
        segs.len() > 0,
{
    segs.update(0, prefix + segs[0])
}

/// The pieces of `s` between occurrences of a blank line (`"\n\n"`), each
/// occurrence taken as early as it can be, as `str::split("\n\n")` does.
pub open spec fn split_blank(s: Seq<char>) -> Seq<Seq<char>>
    decreases s.len(),
{
    if s.len() < 2 {
        seq![s]
    } else if s[0] == '\n' && s[1] == '\n' {
        seq![Seq::<char>::empty()] + split_blank(s.subrange(2, s.len() as int))
    } else {
        prepend_first(seq![s[0]], split_blank(s.drop_first()))
    }
}

proof fn lemma_split_blank_nonempty(s: Seq<char>)
    ensures
        split_blank(s).len() >= 1,
    decreases s.len(),
{
    if s.len() >= 2 {
        if s[0] == '\n' && s[1] == '\n' {
            lemma_split_blank_nonempty(s.subrange(2, s.len() as int));
        } else {
            lemma_split_blank_nonempty(s.drop_first());
        }
    }
}

/// The characters of `s`.
pub fn chars_of(s: &str) -> (r: Vec<char>)
    ensures
        r@ == s@,
{
    let mut r: Vec<char> = Vec::new();
    for c in it: s.chars()
        invariant
            r@ == it.seq().subrange(0, it.index() as int),
            it.seq() == s@,
    {
        r.push(c);
    }
    r
}

/// The pieces of `s` between blank lines.
pub fn split_on_blank_lines(s: &str) -> (r: Vec<String>)
    ensures
        texts(r@) == split_blank(s@),
{
    let cs = chars_of(s);
    let n: usize = cs.len();
    let mut r: Vec<String> = Vec::new();
    let mut start: usize = 0;
    let mut i: usize = 0;
    proof {
        lemma_split_blank_nonempty(s@);
        assert(s@.subrange(0, n as int) =~= s@);
        let x = split_blank(s@);
        assert(prepend_first(s@.subrange(0, 0), x) =~= x);
        assert(r@.map_values(|p: String| p@) + x =~= x);
    }
    while n - i > 1
        invariant
            cs@ == s@,
            n == cs@.len(),
            start <= i <= n,
            split_blank(s@) == r@.map_values(|p: String| p@) + prepend_first(
                s@.subrange(start as int, i as int),
                split_blank(s@.subrange(i as int, n as int)),
            ),
        decreases n - i,
    {
        let ghost rest = s@.subrange(i as int, n as int);
        if cs[i] == '\n' && cs[i + 1] == '\n' {
            let piece = String::from_str(s.substring_char(start, i));
            proof {
                assert(rest.subrange(2, rest.len() as int) =~= s@.subrange(i + 2, n as int));
                lemma_split_blank_nonempty(s@.subrange(i + 2, n as int));
            }
            let ghost done = r@.map_values(|p: String| p@);
            r.push(piece);
            assert(r@.map_values(|p: String| p@) =~= done.push(piece@));
            i = i + 2;
            start = i;
            assert(s@.subrange(start as int, i as int) =~= Seq::<char>::empty());
            assert(split_blank(s@) =~= r@.map_values(|p: String| p@) + prepend_first(
                s@.subrange(start as int, i as int),
                split_blank(s@.subrange(i as int, n as int)),
            ));
        } else {
            proof {
                assert(rest.drop_first() =~= s@.subrange(i + 1, n as int));
                lemma_split_blank_nonempty(s@.subrange(i + 1, n as int));
            }
            let ghost cur = s@.subrange(start as int, i as int);
            let ghost tail = split_blank(s@.subrange(i + 1, n as int));
            assert(split_blank(rest) == prepend_first(seq![rest[0]], tail));
            assert(prepend_first(cur, prepend_first(seq![rest[0]], tail)) =~= prepend_first(
                cur + seq![rest[0]],
                tail,
            )) by {
                assert(cur + (seq![rest[0]] + tail[0]) =~= (cur + seq![rest[0]]) + tail[0]);
            }
            i = i + 1;
            assert(s@.subrange(start as int, i as int) =~= cur + seq![rest[0]]);
            assert(split_blank(s@) =~= r@.map_values(|p: String| p@) + prepend_first(
                s@.subrange(start as int, i as int),
                split_blank(s@.subrange(i as int, n as int)),
            ));
        }
    }
    let ghost done = r@.map_values(|p: String| p@);
    let piece = String::from_str(s.substring_char(start, n));
    r.push(piece.clone());
    proof {
        let cur = s@.subrange(start as int, i as int);
        let rest = s@.subrange(i as int, n as int);
        assert(split_blank(rest) == seq![rest]);
        assert(cur + rest =~= piece@);
        assert(prepend_first(cur, seq![rest]) =~= seq![piece@]);
        assert(r@.map_values(|p: String| p@) =~= done.push(piece@));
        assert(done + seq![piece@] =~= done.push(piece@));
    }
    r
}

} // verus!
