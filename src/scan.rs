//! Executable character classes and scans over a buffer of characters, each
//! proved equal to its counterpart in the grammar.
use crate::grammar::{
    block_close, is_alpha, is_blank, is_digit, is_hex_digit, number_end, run_end, RunClass,
};
use vstd::prelude::*;

verus! {

pub fn blank(c: char) -> (r: bool)
    ensures
        r == is_blank(c),
{
    c == ' ' || c == '\t' || c == '\r'
}

pub fn alpha(c: char) -> (r: bool)
    ensures
        r == is_alpha(c),
{
    ('a' <= c && c <= 'z') || ('A' <= c && c <= 'Z')
}

pub fn digit(c: char) -> (r: bool)
    ensures
        r == is_digit(c),
{
    '0' <= c && c <= '9'
}

pub fn hex_digit(c: char) -> (r: bool)
    ensures
        r == is_hex_digit(c),
{
    digit(c) || ('a' <= c && c <= 'f') || ('A' <= c && c <= 'F')
}

impl RunClass {
    pub fn admits(&self, c: char) -> (r: bool)
        ensures
            r == self.contains(c),
    {
        match self {
            RunClass::Blank => blank(c),
            RunClass::Letter => alpha(c),
            RunClass::CommentText => c != '\n',
            RunClass::StringText => c != '"',
        }
    }
}

/// The end of the longest run of `class` characters of `cs` from `start` on.
pub fn scan_run(cs: &Vec<char>, start: usize, class: RunClass) -> (e: usize)
    requires
        start <= cs.len(),
    ensures
        e == run_end(cs@, start as nat, class),
        start <= e <= cs.len(),
{
    let mut j = start;
    while j < cs.len() && class.admits(cs[j])
        invariant
            start <= j <= cs.len(),
            run_end(cs@, j as nat, class) == run_end(cs@, start as nat, class),
        decreases cs.len() - j,
    {
        j = j + 1;
    }
    j
}

/// The end of an integer literal's run from `start` on, and whether the run
/// from `start` to there holds an `x`.
pub fn scan_number(cs: &Vec<char>, start: usize) -> (r: (usize, bool))
    requires
        start <= cs.len(),
    ensures
        r.0 == number_end(cs@, start as nat, false),
        start <= r.0 <= cs.len(),
        r.1 == cs@.subrange(start as int, r.0 as int).contains('x'),
{
    let mut j = start;
    let mut seen_x = false;
    while j < cs.len() && (hex_digit(cs[j]) || (cs[j] == 'x' && !seen_x))
        invariant
            start <= j <= cs.len(),
            number_end(cs@, j as nat, seen_x) == number_end(cs@, start as nat, false),
            seen_x == cs@.subrange(start as int, j as int).contains('x'),
        decreases cs.len() - j,
    {
        if cs[j] == 'x' {
            seen_x = true;
        }
        proof {
            let (a, b) = (cs@.subrange(start as int, j as int), cs@.subrange(
                start as int,
                j + 1,
            ));
            assert(b == a.push(cs@[j as int]));
            if seen_x {
                assert(b[b.len() - 1] == 'x' || a.contains('x'));
                if a.contains('x') {
                    let k = choose|k: int| 0 <= k < a.len() && a[k] == 'x';
                    assert(b[k] == 'x');
                }
            } else {
                assert(!b.contains('x')) by {
                    if b.contains('x') {
                        let k = choose|k: int| 0 <= k < b.len() && b[k] == 'x';
                        if k < a.len() {
                            assert(a[k] == 'x');
                        }
                    }
                }
            }
        }
        j = j + 1;
    }
    (j, seen_x)
}

/// The position of the first `*/` of `cs` at or after `start`, or the length
/// of `cs` if there is none.
pub fn scan_block_close(cs: &Vec<char>, start: usize) -> (k: usize)
    requires
        start <= cs.len(),
    ensures
        k == block_close(cs@, start as nat),
        start <= k <= cs.len(),
        k < cs.len() ==> k + 1 < cs.len(),
{
    let mut j = start;
    while j < cs.len() && !(j + 1 < cs.len() && cs[j] == '*' && cs[j + 1] == '/')
        invariant
            start <= j <= cs.len(),
            block_close(cs@, j as nat) == block_close(cs@, start as nat),
        decreases cs.len() - j,
    {
        j = j + 1;
    }
    j
}

/// Relies on `String::push`: it appends one character.
#[verifier::external_body]
fn push_char(s: &mut String, c: char)
    ensures
        final(s)@ == old(s)@.push(c),
{
    s.push(c);
}

/// The characters of `cs` from `from` to `to` as a `String`.
pub fn text_of(cs: &Vec<char>, from: usize, to: usize) -> (r: String)
    requires
        from <= to <= cs.len(),
    ensures
        r@ == cs@.subrange(from as int, to as int),
{
    let mut r = String::new();
    let mut j = from;
    while j < to
        invariant
            from <= j <= to <= cs.len(),
            r@ == cs@.subrange(from as int, j as int),
        decreases to - j,
    {
        push_char(&mut r, cs[j]);
        assert(cs@.subrange(from as int, j + 1) == cs@.subrange(from as int, j as int).push(
            cs@[j as int],
        ));
        j = j + 1;
    }
    r
}

/// The characters of `s`, one for one.
pub fn chars_of(s: &str) -> (r: Vec<char>)
    ensures
        r@ == s@,
{
    let mut r: Vec<char> = Vec::new();
    for c in it: s.chars()
        invariant
            r@ == it.seq().take(it.index() as int),
    {
        r.push(c);
    }
    r
}

} // verus!
