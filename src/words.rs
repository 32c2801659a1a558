//! Splitting a line of text into whitespace-separated words.

use vstd::prelude::*;

verus! {

/// The characters that Unicode counts as white space.
pub open spec fn unicode_space(c: char) -> bool {
    let u = c as u32;
    (0x09 <= u && u <= 0x0D) || u == 0x20 || u == 0x85 || u == 0xA0 || u == 0x1680
        || (0x2000 <= u && u <= 0x200A) || u == 0x2028 || u == 0x2029 || u == 0x202F
        || u == 0x205F || u == 0x3000
}

/// ASCII white space: space, tab, line feed, form feed, carriage return.
pub open spec fn ascii_space(c: char) -> bool {
    let u = c as u32;
    u == 0x20 || u == 0x09 || u == 0x0A || u == 0x0C || u == 0x0D
}

pub open spec fn space_pred(ascii: bool) -> spec_fn(char) -> bool {
    if ascii { |c: char| ascii_space(c) } else { |c: char| unicode_space(c) }
}

/// The finished words of `s` and the word still being read at its end.
pub open spec fn scan(s: Seq<char>, space: spec_fn(char) -> bool) -> (Seq<Seq<char>>, Seq<char>)
    decreases s.len(),
{
    if s.len() == 0 {
        (Seq::empty(), Seq::empty())
    } else {
        let (done, cur) = scan(s.drop_last(), space);
        if space(s.last()) {
            if cur.len() > 0 { (done.push(cur), Seq::empty()) } else { (done, Seq::empty()) }
        } else {
            (done, cur.push(s.last()))
        }
    }
}

/// The maximal runs of non-space characters of `s`, in order.
pub open spec fn words(s: Seq<char>, space: spec_fn(char) -> bool) -> Seq<Seq<char>> {
    let (done, cur) = scan(s, space);
    if cur.len() > 0 { done.push(cur) } else { done }
}

pub open spec fn views(v: Seq<Vec<char>>) -> Seq<Seq<char>> {
    Seq::new(v.len(), |i: int| v[i]@)
}

fn is_space(c: char, ascii: bool) -> (r: bool)
    ensures
        r == space_pred(ascii)(c),
{
    let u = c as u32;
    if ascii {
        u == 0x20 || u == 0x09 || u == 0x0A || u == 0x0C || u == 0x0D
    } else {
        (0x09 <= u && u <= 0x0D) || u == 0x20 || u == 0x85 || u == 0xA0 || u == 0x1680
            || (0x2000 <= u && u <= 0x200A) || u == 0x2028 || u == 0x2029 || u == 0x202F
            || u == 0x205F || u == 0x3000
    }
}

/// The words of `s`, split at ASCII white space when `ascii` holds and at
/// any Unicode white space otherwise.
pub fn split_words(s: &Vec<char>, ascii: bool) -> (r: Vec<Vec<char>>)
    ensures
        views(r@) == words(s@, space_pred(ascii)),
{
    let ghost space = space_pred(ascii);
    let mut done: Vec<Vec<char>> = Vec::new();
    let mut cur: Vec<char> = Vec::new();
    let mut i: usize = 0;
    while i < s.len()
        invariant
            i <= s@.len(),
            space == space_pred(ascii),
            (views(done@), cur@) == scan(s@.take(i as int), space),
        decreases s@.len() - i,
    {
        let c = s[i];
        assert(s@.take(i + 1).drop_last() =~= s@.take(i as int));
        assert(s@.take(i + 1).last() == c);
        let ghost before = done@;
        if is_space(c, ascii) {
            if cur.len() > 0 {
                let word = cur;
                cur = Vec::new();
                done.push(word);
                assert(views(done@) =~= views(before).push(word@));
            }
        } else {
            cur.push(c);
        }
        i = i + 1;
    }
    assert(s@.take(i as int) =~= s@);
    if cur.len() > 0 {
        let ghost before = done@;
        done.push(cur);
        assert(views(done@) =~= views(before).push(cur@));
    }
    done
}

} // verus!
