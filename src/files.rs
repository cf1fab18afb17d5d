//! Normalising the list of files to check, as read from version control or
//! from standard input.

use vstd::prelude::*;

use crate::text::push_char;
use crate::types::strs;

verus! {

/// The path with every backslash turned into a forward slash.
pub open spec fn forward_slashes(s: Seq<char>) -> Seq<char> {
    s.map_values(|c: char| if c == '\\' { '/' } else { c })
}

/// The non-empty lines, each with forward slashes, in order.
pub open spec fn normalized_lines(lines: Seq<Seq<char>>) -> Seq<Seq<char>> {
    lines.filter(|l: Seq<char>| l.len() > 0).map_values(|l: Seq<char>| forward_slashes(l))
}

/// Turns every backslash of a path into a forward slash.
pub fn normalize_path(path: &str) -> (r: String)
    ensures
        r@ == forward_slashes(path@),
{
    broadcast use vstd::string::group_string_axioms;

    let mut out = String::new();
    assert(path@.take(0) =~= Seq::<char>::empty());
    assert(out@ =~= forward_slashes(path@.take(0)));
    for c in it: path.chars()
        invariant
            it.seq() == path@,
            out@ == forward_slashes(path@.take(it.index() as int)),
    {
        let ghost i = it.index();
        if c == '\\' {
            push_char(&mut out, '/');
        } else {
            push_char(&mut out, c);
        }
        assert(out@ =~= forward_slashes(path@.take(i + 1)));
    }
    assert(path@.take(path@.len() as int) =~= path@);
    out
}

/// Drops empty lines and normalises the separators of the others.
pub fn normalize_file_list(lines: &Vec<String>) -> (r: Vec<String>)
    ensures
        strs(r@) == normalized_lines(strs(lines@)),
{
    let ghost ls = strs(lines@);
    let mut out: Vec<String> = Vec::new();
    let mut i: usize = 0;
    proof {
        reveal(Seq::filter);
        assert(ls.take(0) =~= Seq::<Seq<char>>::empty());
        assert(strs(out@) =~= normalized_lines(ls.take(0)));
    }
    while i < lines.len()
        invariant
            i <= lines@.len(),
            ls == strs(lines@),
            strs(out@) == normalized_lines(ls.take(i as int)),
        decreases lines@.len() - i,
    {
        proof {
            reveal(Seq::filter);
            assert(ls.take(i + 1).drop_last() =~= ls.take(i as int));
            assert(ls.take(i + 1).last() == lines@[i as int]@);
        }
        let line = lines[i].as_str();
        if !line.is_empty() {
            let p = normalize_path(line);
            let ghost before = out@;
            out.push(p);
            let ghost kept = ls.take(i as int).filter(|l: Seq<char>| l.len() > 0);
            assert(kept.push(lines@[i as int]@).map_values(|l: Seq<char>| forward_slashes(l))
                =~= kept.map_values(|l: Seq<char>| forward_slashes(l)).push(
                forward_slashes(lines@[i as int]@),
            ));
            assert(strs(out@) =~= strs(before).push(forward_slashes(lines@[i as int]@)));
        }
        i = i + 1;
    }
    assert(ls.take(lines@.len() as int) =~= ls);
    out
}

} // verus!
