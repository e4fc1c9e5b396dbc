use vstd::prelude::*;

use crate::text::{chars_of, string_of, trim, trimmed};

verus! {

/// The report line of one package: its name, a colon, and the command's
/// output trimmed.
pub open spec fn outcome_spec(package: Seq<char>, output: Seq<char>) -> Seq<char> {
    package + ": "@ + trim(output)
}

/// Lines joined with `\n` between them.
pub open spec fn joined(lines: Seq<Seq<char>>) -> Seq<char>
    decreases lines.len(),
{
    if lines.len() == 0 {
        Seq::empty()
    } else if lines.len() == 1 {
        lines[0]
    } else {
        joined(lines.drop_last()) + seq!['\n'] + lines.last()
    }
}

fn append_chars(out: &mut Vec<char>, s: &[char])
    ensures
        final(out)@ == old(out)@ + s@,
{
    let mut k: usize = 0;
    while k < s.len()
        invariant
            k <= s.len(),
            out@ == old(out)@ + s@.take(k as int),
        decreases s.len() - k,
    {
        out.push(s[k]);
        assert(s@.take(k + 1) =~= s@.take(k as int).push(s@[k as int]));
        k = k + 1;
    }
    assert(s@.take(k as int) =~= s@);
}

/// The report line of one package after an uninstall or disable command.
pub fn outcome_line(package: &str, output: &str) -> (r: String)
    ensures
        r@ == outcome_spec(package@, output@),
{
    let mut out = chars_of(package);
    let sep = chars_of(": ");
    append_chars(&mut out, sep.as_slice());
    let t = trimmed(chars_of(output).as_slice());
    append_chars(&mut out, t.as_slice());
    string_of(out.as_slice())
}

/// The report of a batch: its lines, one per package, joined with `\n`.
pub fn join_outcomes(lines: &Vec<String>) -> (r: String)
    ensures
        r@ == joined(lines@.map_values(|s: String| s@)),
{
    let ghost lv = lines@.map_values(|s: String| s@);
    let mut out: Vec<char> = Vec::new();
    let mut i: usize = 0;
    while i < lines.len()
        invariant
            i <= lines.len(),
            lv == lines@.map_values(|s: String| s@),
            out@ == joined(lv.take(i as int)),
        decreases lines.len() - i,
    {
        proof {
            assert(lv.take(i + 1).drop_last() =~= lv.take(i as int));
        }
        if i > 0 {
            out.push('\n');
        }
        let c = chars_of(lines[i].as_str());
        append_chars(&mut out, c.as_slice());
        proof {
            assert(lv.take(i + 1).last() == lv[i as int]);
            if i == 0 {
                assert(out@ =~= lv.take(1)[0]);
            } else {
                assert(out@ =~= joined(lv.take(i as int)) + seq!['\n'] + lv[i as int]);
            }
        }
        i = i + 1;
    }
    assert(lv.take(i as int) =~= lv);
    string_of(out.as_slice())
}

} // verus!
