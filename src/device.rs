use vstd::prelude::*;

use crate::text::{
    chars_of, contains, contains_str, is_whitespace, lines_of, skip_word, skip_ws, split_lines,
    string_of, trim, trimmed,
};

verus! {

/// An attached device and what its properties report.
pub struct Device {
    pub id: String,
    pub model: String,
    pub manufacturer: String,
    pub android_version: String,
}

/// The identifier of a device-listing line: the line must hold a non-blank
/// text with the marker `device` and at least two words; the first word is
/// the identifier.
pub open spec fn device_line(line: Seq<char>) -> Option<Seq<char>> {
    let a = skip_ws(line, 0);
    let b = skip_word(line, a);
    if a >= line.len() || !contains(line, "device"@) || skip_ws(line, b) >= line.len() {
        None
    } else {
        Some(line.subrange(a, b))
    }
}

/// The identifiers of the accepted lines, in order.
pub open spec fn devices_of(lines: Seq<Seq<char>>) -> Seq<Seq<char>>
    decreases lines.len(),
{
    if lines.len() == 0 {
        Seq::empty()
    } else {
        match device_line(lines.last()) {
            Some(id) => devices_of(lines.drop_last()).push(id),
            None => devices_of(lines.drop_last()),
        }
    }
}

/// The device identifiers of a device listing, whose first line is a header.
pub open spec fn device_ids_spec(listing: Seq<char>) -> Seq<Seq<char>> {
    let ls = lines_of(listing);
    if ls.len() == 0 {
        Seq::empty()
    } else {
        devices_of(ls.drop_first())
    }
}

/// A property as reported: the query's output trimmed, or `Unknown` when the
/// query failed.
pub open spec fn property_spec(raw: Option<Seq<char>>) -> Seq<char> {
    match raw {
        Some(s) => trim(s),
        None => "Unknown"@,
    }
}

/// The identifier of one device-listing line.
pub fn parse_device_line(line: &[char]) -> (r: Option<Vec<char>>)
    ensures
        match r {
            Some(id) => device_line(line@) == Some(id@),
            None => device_line(line@) is None,
        },
{
    let mut a: usize = 0;
    while a < line.len() && is_whitespace(line[a])
        invariant
            a <= line.len(),
            skip_ws(line@, 0) == skip_ws(line@, a as int),
        decreases line.len() - a,
    {
        a = a + 1;
    }
    if a >= line.len() || !contains_str(line, "device") {
        return None;
    }
    let mut b: usize = a;
    while b < line.len() && !is_whitespace(line[b])
        invariant
            a <= b <= line.len(),
            skip_word(line@, a as int) == skip_word(line@, b as int),
        decreases line.len() - b,
    {
        b = b + 1;
    }
    let mut c: usize = b;
    while c < line.len() && is_whitespace(line[c])
        invariant
            b <= c <= line.len(),
            skip_ws(line@, b as int) == skip_ws(line@, c as int),
        decreases line.len() - c,
    {
        c = c + 1;
    }
    if c >= line.len() {
        return None;
    }
    let mut id: Vec<char> = Vec::new();
    let mut k: usize = a;
    while k < b
        invariant
            a <= k <= b <= line.len(),
            id@ == line@.subrange(a as int, k as int),
        decreases b - k,
    {
        id.push(line[k]);
        k = k + 1;
    }
    Some(id)
}

/// The identifiers of the devices that a device listing names.
pub fn device_ids(listing: &str) -> (r: Vec<String>)
    ensures
        r@.map_values(|s: String| s@) == device_ids_spec(listing@),
{
    let lines = split_lines(&chars_of(listing));
    let ghost ls = lines_of(listing@);
    let mut out: Vec<String> = Vec::new();
    if lines.len() == 0 {
        assert(out@.map_values(|s: String| s@) =~= Seq::<Seq<char>>::empty());
        return out;
    }
    let ghost body = ls.drop_first();
    let mut i: usize = 1;
    assert(out@.map_values(|s: String| s@) =~= devices_of(body.take(0)));
    while i < lines.len()
        invariant
            1 <= i <= lines.len(),
            lines@.len() == ls.len(),
            body == ls.drop_first(),
            forall|k: int| 0 <= k < lines@.len() ==> #[trigger] lines@[k]@ == ls[k],
            out@.map_values(|s: String| s@) == devices_of(body.take(i - 1)),
        decreases lines.len() - i,
    {
        proof {
            assert(body.take(i as int).drop_last() =~= body.take(i - 1));
            assert(body[i - 1] == ls[i as int]);
        }
        match parse_device_line(lines[i].as_slice()) {
            Some(id) => {
                let ghost before = out@;
                let s = string_of(id.as_slice());
                out.push(s);
                assert(out@.map_values(|s: String| s@) =~= before.map_values(|s: String| s@).push(id@));
            },
            None => {},
        }
        i = i + 1;
    }
    assert(body.take(i - 1) =~= body);
    out
}

fn unknown() -> (r: String)
    ensures
        r@ == "Unknown"@,
{
    "Unknown".to_owned()
}

/// A property value from a query's output, or `Unknown` when the query failed.
pub fn property_value(raw: Option<&str>) -> (r: String)
    ensures
        r@ == property_spec(match raw {
            Some(s) => Some(s@),
            None => None,
        }),
{
    match raw {
        Some(s) => {
            let t = trimmed(chars_of(s).as_slice());
            string_of(t.as_slice())
        },
        None => unknown(),
    }
}

impl Device {
    /// A device record from the outputs of its three property queries.
    pub fn from_properties(
        id: String,
        model: Option<&str>,
        manufacturer: Option<&str>,
        android_version: Option<&str>,
    ) -> (r: Device)
        ensures
            r.id@ == id@,
            r.model@ == property_spec(match model {
                Some(s) => Some(s@),
                None => None,
            }),
            r.manufacturer@ == property_spec(match manufacturer {
                Some(s) => Some(s@),
                None => None,
            }),
            r.android_version@ == property_spec(match android_version {
                Some(s) => Some(s@),
                None => None,
            }),
    {
        Device {
            id,
            model: property_value(model),
            manufacturer: property_value(manufacturer),
            android_version: property_value(android_version),
        }
    }
}

} // verus!
