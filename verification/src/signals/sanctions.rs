//! Sanctioned-country lookup (OFAC / EU / UK / UN programmes).
use vstd::prelude::*;
use crate::text;

verus! {

/// ISO 3166-1 alpha-2 codes of sanctioned jurisdictions, sorted and uppercase.
pub const SANCTIONED_COUNTRIES: [&'static str; 8] = ["BY", "CU", "IR", "KP", "MM", "RU", "SY", "VE"];

/// The sanctioned codes as character sequences.
pub open spec fn sanctioned_codes() -> Seq<Seq<char>> {
    seq!["BY"@, "CU"@, "IR"@, "KP"@, "MM"@, "RU"@, "SY"@, "VE"@]
}

/// Whether a country code names a sanctioned jurisdiction: after trimming it
/// is exactly two characters whose ASCII uppercase form is on the list.
pub open spec fn spec_is_sanctioned(code: Seq<char>) -> bool {
    let t = text::trim(code);
    t.len() == 2 && sanctioned_codes().contains(text::upper(t))
}

/// Returns true when `country_code` (case-insensitive, surrounding white
/// space ignored) is on [`SANCTIONED_COUNTRIES`].
pub fn is_sanctioned(country_code: &str) -> (r: bool)
    ensures
        r == spec_is_sanctioned(country_code@),
{
    let t = text::trimmed_chars(country_code);
    if t.len() != 2 {
        return false;
    }
    let up = text::upper_vec(&t);
    let mut i: usize = 0;
    while i < 8
        invariant
            i <= 8,
            up@ == text::upper(t@),
            t@ == text::trim(country_code@),
            t@.len() == 2,
            forall|j: int| 0 <= j < i ==> sanctioned_codes()[j] != up@,
        decreases 8 - i,
    {
        let code = text::chars_of(SANCTIONED_COUNTRIES[i]);
        proof {
            reveal_strlit("BY");
            reveal_strlit("CU");
            reveal_strlit("IR");
            reveal_strlit("KP");
            reveal_strlit("MM");
            reveal_strlit("RU");
            reveal_strlit("SY");
            reveal_strlit("VE");
        }
        assert(code@ == sanctioned_codes()[i as int]);
        if text::chars_eq(&code, &up) {
            assert(sanctioned_codes()[i as int] == up@);
            assert(sanctioned_codes().len() == 8);
            assert(sanctioned_codes().contains(up@));
            return true;
        }
        i = i + 1;
    }
    assert(!sanctioned_codes().contains(up@));
    false
}

} // verus!
