use vstd::prelude::*;

verus! {

/// Relies on `String::push`: appends the one character `c` to `s`.
#[verifier::external_body]
pub(crate) fn push_char(s: &mut String, c: char)
    ensures
        final(s)@ == old(s)@.push(c),
{
    s.push(c);
}

/// Whether `t` reads exactly `w`.
pub(crate) fn is_text(t: &str, w: &str) -> (r: bool)
    ensures
        r == (t@ == w@),
{
    String::from_str(t) == String::from_str(w)
}

/// Whether `c` is white space in Unicode's sense (the `White_Space` property).
pub open spec fn is_space(c: char) -> bool {
    let u = c as u32;
    (0x9 <= u <= 0xd) || u == 0x20 || u == 0x85 || u == 0xa0 || u == 0x1680 || (0x2000 <= u
        <= 0x200a) || u == 0x2028 || u == 0x2029 || u == 0x202f || u == 0x205f || u == 0x3000
}

/// The text split at each line feed. A text without one is a single line, and
/// a final line feed is followed by one empty line.
pub open spec fn lines_of(s: Seq<char>) -> Seq<Seq<char>>
    decreases s.len(),
{
    if s.len() == 0 {
        seq![Seq::empty()]
    } else {
        let p = lines_of(s.drop_last());
        if s.last() == '\n' {
            p.push(Seq::empty())
        } else {
            p.update(p.len() - 1, p.last().push(s.last()))
        }
    }
}

/// The maximal runs of non-space characters of `s`, in order.
pub open spec fn tokens(s: Seq<char>) -> Seq<Seq<char>>
    decreases s.len(),
{
    if s.len() == 0 {
        Seq::empty()
    } else {
        let p = tokens(s.drop_last());
        let c = s.last();
        if is_space(c) {
            p
        } else if s.len() == 1 || is_space(s[s.len() - 2]) {
            p.push(seq![c])
        } else {
            p.update(p.len() - 1, p.last().push(c))
        }
    }
}

/// The character sequences of a list of strings.
pub open spec fn texts(v: Seq<String>) -> Seq<Seq<char>> {
    v.map_values(|t: String| t@)
}

/// The character sequences of a list of character vectors.
pub open spec fn char_rows(v: Seq<Vec<char>>) -> Seq<Seq<char>> {
    v.map_values(|l: Vec<char>| l@)
}

proof fn lemma_lines_nonempty(s: Seq<char>)
    ensures
        lines_of(s).len() >= 1,
    decreases s.len(),
{
    if s.len() > 0 {
        lemma_lines_nonempty(s.drop_last());
    }
}

/// Whether `c` is white space.
pub fn is_space_char(c: char) -> (r: bool)
    ensures
        r == is_space(c),
{
    let u = c as u32;
    (0x9 <= u && u <= 0xd) || u == 0x20 || u == 0x85 || u == 0xa0 || u == 0x1680 || (0x2000 <= u
        && u <= 0x200a) || u == 0x2028 || u == 0x2029 || u == 0x202f || u == 0x205f || u == 0x3000
}

/// The characters of `s`, in order.
pub fn chars_of(s: &str) -> (r: Vec<char>)
    ensures
        r@ == s@,
{
    broadcast use vstd::string::group_string_axioms;

    let mut out: Vec<char> = Vec::new();
    for c in it: s.chars()
        invariant
            it.seq() == s@,
            out@ == s@.take(it.index() as int),
    {
        out.push(c);
        assert(out@ =~= s@.take(it.index() + 1));
    }
    assert(s@.take(s@.len() as int) =~= s@);
    out
}

/// The lines of `src`, split at each line feed.
pub fn source_lines(src: &str) -> (r: Vec<Vec<char>>)
    ensures
        char_rows(r@) == lines_of(src@),
{
    broadcast use vstd::string::group_string_axioms;

    let mut done: Vec<Vec<char>> = Vec::new();
    let mut cur: Vec<char> = Vec::new();
    for c in it: src.chars()
        invariant
            it.seq() == src@,
            char_rows(done@).push(cur@) == lines_of(src@.take(it.index() as int)),
    {
        let ghost k = it.index() as int;
        let ghost before = char_rows(done@);
        proof {
            lemma_lines_nonempty(src@.take(k));
            assert(src@.take(k + 1).drop_last() =~= src@.take(k));
            assert(src@.take(k + 1).last() == c);
        }
        if c == '\n' {
            done.push(cur);
            cur = Vec::new();
            assert(char_rows(done@) =~= before.push(char_rows(done@).last()));
            assert(char_rows(done@).push(cur@) =~= lines_of(src@.take(k + 1)));
        } else {
            cur.push(c);
            assert(char_rows(done@).push(cur@) =~= lines_of(src@.take(k + 1)));
        }
    }
    done.push(cur);
    assert(src@.take(src@.len() as int) =~= src@);
    assert(char_rows(done@) =~= lines_of(src@));
    done
}

/// The whitespace-separated tokens of one line.
pub fn tokenize(line: &Vec<char>) -> (r: Vec<String>)
    ensures
        texts(r@) == tokens(line@),
{
    let mut done: Vec<String> = Vec::new();
    let mut cur = String::new();
    let mut in_word = false;
    let mut i: usize = 0;
    while i < line.len()
        invariant
            i <= line@.len(),
            in_word == (i > 0 && !is_space(line@[i - 1])),
            in_word ==> texts(done@).push(cur@) == tokens(line@.take(i as int)),
            !in_word ==> texts(done@) == tokens(line@.take(i as int)),
        decreases line@.len() - i,
    {
        let c = line[i];
        let ghost s = line@.take(i + 1);
        proof {
            assert(s.drop_last() =~= line@.take(i as int));
            assert(s.last() == c);
            if i > 0 {
                assert(s[s.len() - 2] == line@[i - 1]);
            }
        }
        if is_space_char(c) {
            if in_word {
                done.push(cur);
                cur = String::new();
                assert(texts(done@) =~= tokens(s));
            }
            in_word = false;
        } else {
            if in_word {
                push_char(&mut cur, c);
                assert(texts(done@).push(cur@) =~= tokens(s));
            } else {
                cur = String::new();
                push_char(&mut cur, c);
                assert(cur@ =~= seq![c]);
                assert(texts(done@).push(cur@) =~= tokens(s));
            }
            in_word = true;
        }
        i = i + 1;
    }
    assert(line@.take(i as int) =~= line@);
    if in_word {
        done.push(cur);
        assert(texts(done@) =~= tokens(line@));
    }
    done
}

} // verus!
