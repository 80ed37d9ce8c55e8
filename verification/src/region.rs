//! User region, shared by config, wellfound URL validation and prompt contexts.

use crate::text::{
    ascii_lower_seq, eq_vec, chars_of, debug_quote, debug_quoted, is_ascii_seq, push_all, push_str,
    string_of, to_lowercase_vec, trim, trim_vec, unicode_lowercase,
};
use vstd::prelude::*;

verus! {

#[derive(Debug, Clone, Copy, PartialEq, Eq, Structural)]
pub enum Region {
    Europe,
    NorthAmerica,
    SouthAmerica,
    Asia,
    Africa,
    Oceania,
    MiddleEast,
}

/// Display name of a region.
pub open spec fn region_name(r: Region) -> Seq<char> {
    match r {
        Region::Europe => "Europe"@,
        Region::NorthAmerica => "North America"@,
        Region::SouthAmerica => "South America"@,
        Region::Asia => "Asia"@,
        Region::Africa => "Africa"@,
        Region::Oceania => "Oceania"@,
        Region::MiddleEast => "Middle East"@,
    }
}

/// '_' and ' ' become '-'.
pub open spec fn dash_char(c: char) -> char {
    if c == '_' || c == ' ' {
        '-'
    } else {
        c
    }
}

pub open spec fn dashed(s: Seq<char>) -> Seq<char> {
    s.map_values(|c: char| dash_char(c))
}

/// The key a name is compared by: lower-cased, spaces as dashes.
pub open spec fn region_key(r: Region) -> Seq<char> {
    dashed(ascii_lower_seq(region_name(r)))
}

/// What `Region::parse` compares against the keys: the input trimmed,
/// lower-cased and with '_' and ' ' turned into '-'.
pub open spec fn normalized_input(s: Seq<char>) -> Seq<char> {
    dashed(unicode_lowercase(trim(s)))
}

/// The error for a name that is no region.
#[derive(Debug, Clone)]
pub struct UnknownRegion {
    pub input: String,
}

impl UnknownRegion {
    /// "unknown region \"x\"; valid: Europe, North America, ...".
    pub fn message(&self) -> (r: String)
        ensures
            r@ == "unknown region "@ + debug_quoted(self.input@)
                + "; valid: Europe, North America, South America, Asia, Africa, Oceania, Middle East"@,
    {
        let mut out: Vec<char> = Vec::new();
        push_str(&mut out, "unknown region ");
        let q = debug_quote(self.input.as_str());
        push_str(&mut out, q.as_str());
        push_str(
            &mut out,
            "; valid: Europe, North America, South America, Asia, Africa, Oceania, Middle East",
        );
        string_of(&out)
    }
}

fn dashed_vec(v: &Vec<char>) -> (r: Vec<char>)
    ensures
        r@ == dashed(v@),
{
    let mut r: Vec<char> = Vec::new();
    let mut i: usize = 0;
    while i < v.len()
        invariant
            i <= v.len(),
            r@ == dashed(v@.subrange(0, i as int)),
        decreases v.len() - i,
    {
        let c = v[i];
        r.push(
            if c == '_' || c == ' ' {
                '-'
            } else {
                c
            },
        );
        i = i + 1;
        assert(dashed(v@.subrange(0, i as int)) =~= dashed(v@.subrange(0, i - 1)).push(
            dash_char(c),
        ));
    }
    assert(v@.subrange(0, i as int) =~= v@);
    r
}

/// Region names are ASCII and carry no surrounding white space.
pub proof fn lemma_names_ascii(r: Region)
    ensures
        is_ascii_seq(region_name(r)),
        trim(region_name(r)) == region_name(r),
{
    reveal_strlit("Europe");
    reveal_strlit("North America");
    reveal_strlit("South America");
    reveal_strlit("Asia");
    reveal_strlit("Africa");
    reveal_strlit("Oceania");
    reveal_strlit("Middle East");
    let n = region_name(r);
    assert(n.len() > 0);
    assert(!crate::text::is_white_space(n[0]));
    assert(crate::text::trim_start(n) == n);
    assert(!crate::text::is_white_space(n.last()));
    assert(crate::text::trim_end(n) == n);
}

/// No two regions share a key.
pub proof fn lemma_region_keys_distinct(a: Region, b: Region)
    requires
        region_key(a) == region_key(b),
    ensures
        a == b,
{
    reveal_strlit("Europe");
    reveal_strlit("North America");
    reveal_strlit("South America");
    reveal_strlit("Asia");
    reveal_strlit("Africa");
    reveal_strlit("Oceania");
    reveal_strlit("Middle East");
    if a != b {
        let ka = region_key(a);
        let kb = region_key(b);
        if ka.len() == kb.len() {
            assert(ka[0] != kb[0] || ka[1] != kb[1] || ka[6] != kb[6]);
        }
    }
}

impl Region {
    /// Every region, in declaration order.
    pub const ALL: [Region; 7] = [
        Region::Europe,
        Region::NorthAmerica,
        Region::SouthAmerica,
        Region::Asia,
        Region::Africa,
        Region::Oceania,
        Region::MiddleEast,
    ];

    /// Display name ("North America").
    pub fn to_string(&self) -> (r: String)
        ensures
            r@ == region_name(*self),
    {
        let s = match self {
            Region::Europe => "Europe",
            Region::NorthAmerica => "North America",
            Region::SouthAmerica => "South America",
            Region::Asia => "Asia",
            Region::Africa => "Africa",
            Region::Oceania => "Oceania",
            Region::MiddleEast => "Middle East",
        };
        string_of(&chars_of(s))
    }

    /// Reads a region from its name, ignoring case, surrounding white space
    /// and the difference between ' ', '_' and '-'.
    pub fn parse(s: &str) -> (r: Result<Region, UnknownRegion>)
        ensures
            match r {
                Ok(reg) => normalized_input(s@) == region_key(reg),
                Err(e) => e.input@ == s@ && forall|reg: Region|
                    normalized_input(s@) != region_key(reg),
            },
            is_ascii_seq(trim(s@)) ==> unicode_lowercase(trim(s@)) == ascii_lower_seq(trim(s@)),
            forall|reg: Region| trim(s@) == region_name(reg) ==> r == Ok::<Region, UnknownRegion>(reg),
    {
        let v = chars_of(s);
        let t = trim_vec(&v);
        let l = to_lowercase_vec(&t);
        let norm = dashed_vec(&l);
        let all = Region::ALL;
        let mut i: usize = 0;
        while i < 7
            invariant
                i <= 7,
                all@ == Region::ALL@,
                norm@ == normalized_input(s@),
                is_ascii_seq(trim(s@)) ==> unicode_lowercase(trim(s@)) == ascii_lower_seq(
                    trim(s@),
                ),
                forall|j: int| 0 <= j < i ==> norm@ != region_key(#[trigger] Region::ALL@[j]),
            decreases 7 - i,
        {
            let reg = all[i];
            let name = reg.to_string();
            let nv = chars_of(name.as_str());
            let key = dashed_vec(&to_lowercase_vec(&nv));
            proof {
                lemma_names_ascii(reg);
            }
            assert(key@ == region_key(reg));
            if eq_vec(&key, &norm) {
                proof {
                    assert forall|r2: Region| trim(s@) == region_name(r2) implies reg == r2 by {
                        lemma_names_ascii(r2);
                        assert(normalized_input(s@) == region_key(r2));
                        lemma_region_keys_distinct(reg, r2);
                    }
                }
                return Ok(reg);
            }
            assert(key@ != norm@);
            i = i + 1;
        }
        proof {
            assert forall|reg: Region| normalized_input(s@) != region_key(reg) by {
                assert(reg == Region::ALL@[0] || reg == Region::ALL@[1] || reg == Region::ALL@[2]
                    || reg == Region::ALL@[3] || reg == Region::ALL@[4] || reg == Region::ALL@[5]
                    || reg == Region::ALL@[6]);
            }
            assert forall|reg: Region| trim(s@) != region_name(reg) by {
                lemma_names_ascii(reg);
            }
        }
        Err(UnknownRegion { input: string_of(&v) })
    }
}

impl std::str::FromStr for Region {
    type Err = UnknownRegion;

    fn from_str(s: &str) -> (r: Result<Region, UnknownRegion>)
        ensures
            match r {
                Ok(reg) => normalized_input(s@) == region_key(reg),
                Err(e) => e.input@ == s@ && forall|reg: Region|
                    normalized_input(s@) != region_key(reg),
            },
            is_ascii_seq(trim(s@)) ==> unicode_lowercase(trim(s@)) == ascii_lower_seq(trim(s@)),
            forall|reg: Region| trim(s@) == region_name(reg) ==> r == Ok::<Region, UnknownRegion>(reg),
    {
        Region::parse(s)
    }
}

} // verus!
