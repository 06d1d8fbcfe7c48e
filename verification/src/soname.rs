//! Derive an output object name from a shared library name.

use vstd::prelude::*;

verus! {

/// ASCII lowercasing of a single byte.
pub open spec fn lower_byte_spec(b: u8) -> u8 {
    if 65 <= b && b <= 90 {
        (b + 32) as u8
    } else {
        b
    }
}

/// The two bytes of the suffix `.o`.
pub open spec fn suffix_o() -> Seq<u8> {
    seq![46u8, 111u8]
}

/// Whether `s` ends with `.so`, ignoring ASCII case.
pub open spec fn ends_with_so(s: Seq<u8>) -> bool {
    &&& s.len() >= 3
    &&& lower_byte_spec(s[s.len() - 3]) == 46u8
    &&& lower_byte_spec(s[s.len() - 2]) == 115u8
    &&& lower_byte_spec(s[s.len() - 1]) == 111u8
}

/// Whether `s` begins with `lib`, ignoring ASCII case.
pub open spec fn has_lib_prefix(s: Seq<u8>) -> bool {
    &&& s.len() >= 3
    &&& lower_byte_spec(s[0]) == 108u8
    &&& lower_byte_spec(s[1]) == 105u8
    &&& lower_byte_spec(s[2]) == 98u8
}

/// The object name derived from a shared library name: a trailing `.so`
/// suffix is replaced by `.o` (and a `lib` prefix dropped); any other name
/// just gains `.o`.
pub open spec fn object_name_spec(s: Seq<u8>) -> Seq<u8> {
    if ends_with_so(s) {
        let stem = s.take(s.len() - 3);
        if has_lib_prefix(stem) {
            stem.skip(3) + suffix_o()
        } else {
            stem + suffix_o()
        }
    } else {
        s + suffix_o()
    }
}

/// ASCII lowercasing of a single byte.
fn lower_byte(b: u8) -> (r: u8)
    ensures
        r == lower_byte_spec(b),
{
    if 65 <= b && b <= 90 {
        b + 32
    } else {
        b
    }
}

/// Convert a shared library name into its corresponding object name.
///
/// The name is handled as bytes so that any file name can be given:
/// - If the name does not end in `.so` (ignoring ASCII case), `.o` is
///   appended and nothing else changes.
/// - Otherwise the `.so` suffix is replaced by `.o`, and a leading `lib`
///   (ignoring ASCII case) is dropped from what remains.
///
/// For example `libxyz.so` becomes `xyz.o`, `xyz.so` becomes `xyz.o`, and
/// `xyz` becomes `xyz.o`.
pub fn convert_soname_to_object_name(soname: &[u8]) -> (r: Vec<u8>)
    ensures
        r@ == object_name_spec(soname@),
{
    let n: usize = soname.len();

    let ends_so: bool = n >= 3 && lower_byte(soname[n - 3]) == 46 && lower_byte(
        soname[n - 2],
    ) == 115 && lower_byte(soname[n - 1]) == 111;

    let end: usize = if ends_so {
        n - 3
    } else {
        n
    };
    let start: usize = if ends_so && end >= 3 && lower_byte(soname[0]) == 108 && lower_byte(
        soname[1],
    ) == 105 && lower_byte(soname[2]) == 98 {
        3
    } else {
        0
    };

    proof {
        assert(ends_so == ends_with_so(soname@));
        if ends_so {
            let stem = soname@.take(soname@.len() - 3);
            assert(start == 3 <==> has_lib_prefix(stem));
        }
    }

    let mut r: Vec<u8> = Vec::new();
    let mut i: usize = start;
    while i < end
        invariant
            start <= i <= end <= n,
            n == soname@.len(),
            r@ == soname@.subrange(start as int, i as int),
        decreases end - i,
    {
        r.push(soname[i]);
        assert(r@ == soname@.subrange(start as int, i + 1));
        i = i + 1;
    }
    r.push(46);
    r.push(111);

    proof {
        if ends_so {
            let stem = soname@.take(soname@.len() - 3);
            if start == 3 {
                assert(soname@.subrange(3, end as int) == stem.skip(3));
            } else {
                assert(soname@.subrange(0, end as int) == stem);
            }
        } else {
            assert(soname@.subrange(0, n as int) == soname@);
        }
        assert(r@ == object_name_spec(soname@));
    }
    r
}

} // verus!
