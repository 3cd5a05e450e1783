//! Named constants with a fallback for unknown values.
//!
//! ELF headers are full of small enumerated values — classes, data
//! encodings, object-file types, machine numbers.  A [`Constant`]
//! pairs such a value with the name and meaning a lookup table gave
//! it, or with no name at all when the table had none, in which case
//! it renders as `Unknown (0xHH)`.

use vstd::prelude::*;

use crate::text::{ascii_seq, hex_string, spec_hex_bytes};

verus! {

/// A looked-up constant: a value with the name and meaning its table
/// gave it, either of which may be absent.
#[derive(Debug, Clone, Copy, PartialEq, Eq)]
pub struct Constant<Type> {
    pub name: Option<&'static str>,
    pub value: Type,
    pub meaning: Option<&'static str>,
}

impl<Type> Constant<Type> {
    /// Builds a constant from all three parts.
    pub fn new(name: Option<&'static str>, value: Type, meaning: Option<&'static str>) -> (r:
        Self)
        ensures
            r == (Constant { name, value, meaning }),
    {
        Self { name, value, meaning }
    }

    /// Builds a named constant.
    pub fn named(name: &'static str, value: Type, meaning: Option<&'static str>) -> (r: Self)
        ensures
            r == (Constant { name: Some(name), value, meaning }),
    {
        Self::new(Some(name), value, meaning)
    }

    /// Builds a constant whose value matched no name.
    pub fn unknown(value: Type, meaning: Option<&'static str>) -> (r: Self)
        ensures
            r == (Constant { name: None::<&'static str>, value, meaning }),
    {
        Self::new(None, value, meaning)
    }

    /// The constant's name, or `Unknown` when it has none.
    pub fn name(&self) -> (r: &'static str)
        ensures
            match self.name {
                Some(n) => r == n,
                None => r@ == "Unknown"@,
            },
    {
        match self.name {
            Some(n) => n,
            None => "Unknown",
        }
    }

    /// The constant's meaning, or the empty string when it has none.
    pub fn meaning(&self) -> (r: &'static str)
        ensures
            match self.meaning {
                Some(m) => r == m,
                None => r@ == ""@,
            },
    {
        match self.meaning {
            Some(m) => m,
            None => "",
        }
    }
}

impl Constant<u64> {
    /// The constant's name, or `Unknown (0xHH)` with the value in
    /// hexadecimal when it has none.
    pub fn name_or_value(&self) -> (r: String)
        ensures
            match self.name {
                Some(n) => r@ == n@,
                None => r@ == "Unknown (0x"@ + ascii_seq(spec_hex_bytes(self.value as int))
                    + ")"@,
            },
    {
        match self.name {
            Some(n) => String::from_str(n),
            None => {
                let mut out = String::from_str("Unknown (0x");
                let digits = hex_string(self.value);
                out.append(digits.as_str());
                out.append(")");
                out
            },
        }
    }
}

/// One named value of a lookup table.
#[derive(Debug, Clone, Copy, PartialEq, Eq)]
pub struct ConstantDef {
    pub name: &'static str,
    pub value: u64,
    pub meaning: &'static str,
}

/// One half-open range of reserved or environment-specific values.
///
/// Both bounds carry names of their own; a value strictly between
/// them shares the range's meaning but has no name.
#[derive(Debug, Clone, Copy, PartialEq, Eq)]
pub struct RangeDef {
    pub low_name: &'static str,
    pub high_name: &'static str,
    pub low: u64,
    pub high: u64,
    pub meaning: &'static str,
}

/// The first table entry holding `value`, in table order.
pub open spec fn spec_find_single(singles: Seq<ConstantDef>, value: u64) -> Option<ConstantDef>
    decreases singles.len(),
{
    if singles.len() == 0 {
        None
    } else if singles[0].value == value {
        Some(singles[0])
    } else {
        spec_find_single(singles.drop_first(), value)
    }
}

/// What the first range holding `value` makes of it, in table
/// order: the bound's own name at a bound, the range's meaning
/// alone strictly inside.
pub open spec fn spec_find_range(ranges: Seq<RangeDef>, value: u64) -> Option<Constant<u64>>
    decreases ranges.len(),
{
    if ranges.len() == 0 {
        None
    } else if value == ranges[0].low {
        Some(
            Constant {
                name: Some(ranges[0].low_name),
                value,
                meaning: Some(ranges[0].meaning),
            },
        )
    } else if value == ranges[0].high {
        Some(
            Constant {
                name: Some(ranges[0].high_name),
                value,
                meaning: Some(ranges[0].meaning),
            },
        )
    } else if ranges[0].low <= value < ranges[0].high {
        Some(Constant { name: None, value, meaning: Some(ranges[0].meaning) })
    } else {
        spec_find_range(ranges.drop_first(), value)
    }
}

/// What a lookup table makes of a value: named entries take
/// precedence over ranges, and a value no table row holds falls
/// back to an unknown constant.
pub open spec fn spec_into_constant(
    singles: Seq<ConstantDef>,
    ranges: Seq<RangeDef>,
    value: u64,
) -> Constant<u64> {
    match spec_find_single(singles, value) {
        Some(def) => Constant { name: Some(def.name), value, meaning: Some(def.meaning) },
        None => match spec_find_range(ranges, value) {
            Some(found) => found,
            None => Constant { name: None, value, meaning: None },
        },
    }
}

/// Looks a value up in a constants table: the named entries in
/// order, then the declared half-open ranges in order, then the
/// unknown fallback.
pub fn into_constant(singles: &[ConstantDef], ranges: &[RangeDef], value: u64) -> (r: Constant<
    u64,
>)
    ensures
        r == spec_into_constant(singles@, ranges@, value),
{
    let mut i: usize = 0;
    proof {
        assert(singles@.skip(0) =~= singles@);
    }
    while i < singles.len()
        invariant
            i <= singles@.len(),
            spec_find_single(singles@, value) == spec_find_single(singles@.skip(i as int), value),
        decreases singles@.len() - i,
    {
        let entry = singles[i];
        proof {
            assert(singles@.skip(i as int)[0] == singles@[i as int]);
            assert(singles@.skip(i as int).drop_first() =~= singles@.skip(i as int + 1));
        }
        if entry.value == value {
            return Constant::new(Some(entry.name), value, Some(entry.meaning));
        }
        i = i + 1;
    }
    proof {
        assert(singles@.skip(singles@.len() as int).len() == 0);
    }
    let mut j: usize = 0;
    proof {
        assert(ranges@.skip(0) =~= ranges@);
    }
    while j < ranges.len()
        invariant
            j <= ranges@.len(),
            spec_find_single(singles@, value) is None,
            spec_find_range(ranges@, value) == spec_find_range(ranges@.skip(j as int), value),
        decreases ranges@.len() - j,
    {
        let range = ranges[j];
        proof {
            assert(ranges@.skip(j as int)[0] == ranges@[j as int]);
            assert(ranges@.skip(j as int).drop_first() =~= ranges@.skip(j as int + 1));
        }
        if value == range.low {
            return Constant::new(Some(range.low_name), value, Some(range.meaning));
        }
        if value == range.high {
            return Constant::new(Some(range.high_name), value, Some(range.meaning));
        }
        if range.low <= value && value < range.high {
            return Constant::new(None, value, Some(range.meaning));
        }
        j = j + 1;
    }
    proof {
        assert(ranges@.skip(ranges@.len() as int).len() == 0);
    }
    Constant::new(None, value, None)
}

impl Constant<usize> {
    /// The constant's name, or `Unknown (0xHH)` with the value in
    /// hexadecimal when it has none.
    pub fn name_or_value(&self) -> (r: String)
        ensures
            match self.name {
                Some(n) => r@ == n@,
                None => r@ == "Unknown (0x"@ + ascii_seq(spec_hex_bytes(self.value as int))
                    + ")"@,
            },
    {
        let widened = Constant {
            name: self.name,
            value: self.value as u64,
            meaning: self.meaning,
        };
        widened.name_or_value()
    }
}

} // verus!
