use crate::schema::{FieldSchema, SynthExpr, SynthField};
use vstd::prelude::*;
use vstd::string::StringExecFns;

verus! {

/// What convert_case yields for a name: the Pascal-case spelling of an
/// identifier.  The result depends on the characters alone.
pub uninterp spec fn pascal_of(s: Seq<char>) -> Seq<char>;

/// Relies on convert_case's `Casing::to_case` with `Case::Pascal`: a pure
/// function of the input text, capitalising each word and removing the
/// separators.
#[verifier::external_body]
fn to_pascal_case(s: &String) -> (r: String)
    ensures
        r@ == pascal_of(s@),
{
    convert_case::Casing::to_case(&s.as_str(), convert_case::Case::Pascal)
}

/// The decimal digits of a non-negative number, most significant first.
pub open spec fn spec_decimal(n: int) -> Seq<char>
    decreases n,
{
    if n <= 9 {
        seq![spec_digit(n)]
    } else {
        spec_decimal(n / 10).push(spec_digit(n % 10))
    }
}

/// The character of one decimal digit.
pub open spec fn spec_digit(d: int) -> char {
    if d == 0 {
        '0'
    } else if d == 1 {
        '1'
    } else if d == 2 {
        '2'
    } else if d == 3 {
        '3'
    } else if d == 4 {
        '4'
    } else if d == 5 {
        '5'
    } else if d == 6 {
        '6'
    } else if d == 7 {
        '7'
    } else if d == 8 {
        '8'
    } else {
        '9'
    }
}

/// Relies on std's decimal formatting of `usize`, which prints exactly the
/// decimal digits, most significant first.
#[verifier::external_body]
fn decimal_string(n: usize) -> (r: String)
    ensures
        r@ == spec_decimal(n as int),
{
    format!("{}", n)
}

/// The tag of an effective field: the Pascal-case spelling of its name, or
/// `Field` followed by its effective index for a positional field.
pub open spec fn tag_of(index: int, name: Option<Seq<char>>) -> Seq<char> {
    match name {
        Option::Some(s) => pascal_of(s),
        Option::None => "Field"@ + spec_decimal(index),
    }
}

/// The tag naming the change variant generated for a field: its name in
/// Pascal case, or `Field` followed by its index for positional fields.
pub fn variant_name_from_field(index: usize, name: &Option<String>) -> (r: String)
    ensures
        r@ == tag_of(index as int, match name {
            Option::Some(s) => Option::Some(s@),
            Option::None => Option::None,
        }),
{
    match name {
        Option::Some(s) => to_pascal_case(s),
        Option::None => {
            let prefix = String::from_str("Field");
            prefix.concat(decimal_string(index).as_str())
        },
    }
}

/// Which stored field, or which synthetic of a stored field, an effective
/// field of a generated definition stands for; for sum types, within which
/// variant.
#[derive(PartialEq, Eq, Clone, Copy, Debug)]
pub struct FieldSel {
    pub variant: Option<usize>,
    pub field: usize,
    pub synth: Option<usize>,
}

/// One effective field: where it comes from and the name it carries, if any.
/// Synthetic fields always carry their declared name.
#[derive(PartialEq, Debug)]
pub struct EffEntry {
    pub sel: FieldSel,
    pub name: Option<String>,
}

/// The effective fields of a field list, in order: each stored field's
/// synthetics first (when injected), then the field itself unless ignored.
pub open spec fn spec_eff_entries(
    fields: Seq<FieldSchema>,
    variant: Option<usize>,
    inject_synthetics: bool,
) -> Seq<EffEntry>
    decreases fields,
{
    if fields.len() == 0 {
        Seq::empty()
    } else {
        let i = fields.len() - 1;
        let synths: Seq<EffEntry> = if inject_synthetics {
            spec_synth_eff_entries(fields[i].synthetics@, variant, i)
        } else {
            Seq::empty()
        };
        let own: Seq<EffEntry> = if fields[i].ignored {
            Seq::empty()
        } else {
            seq![
                EffEntry {
                    sel: FieldSel { variant, field: i as usize, synth: Option::None },
                    name: fields[i].name,
                },
            ]
        };
        spec_eff_entries(fields.drop_last(), variant, inject_synthetics) + synths + own
    }
}

/// The effective entries of one field's synthetics, in order.
pub open spec fn spec_synth_eff_entries(
    synths: Seq<SynthField>,
    variant: Option<usize>,
    field: int,
) -> Seq<EffEntry>
    decreases synths,
{
    if synths.len() == 0 {
        Seq::empty()
    } else {
        spec_synth_eff_entries(synths.drop_last(), variant, field).push(
            EffEntry {
                sel: FieldSel {
                    variant,
                    field: field as usize,
                    synth: Option::Some((synths.len() - 1) as usize),
                },
                name: Option::Some(synths.last().name),
            },
        )
    }
}

/// Enumerate the effective fields of a field list: synthetics injected in
/// front of their field (when asked), ignored fields dropped.  The position
/// of an entry in the result is its effective index.
pub fn effective_fields(
    fields: &Vec<FieldSchema>,
    variant: Option<usize>,
    inject_synthetics: bool,
) -> (r: Vec<EffEntry>)
    ensures
        r@ == spec_eff_entries(fields@, variant, inject_synthetics),
{
    let mut r: Vec<EffEntry> = Vec::new();
    let n = fields.len();
    let mut i: usize = 0;
    while i < n
        invariant
            i <= n,
            n == fields@.len(),
            r@ == spec_eff_entries(fields@.take(i as int), variant, inject_synthetics),
        decreases n - i,
    {
        proof {
            assert(fields@.take(i as int + 1).drop_last() =~= fields@.take(i as int));
            assert(fields@.take(i as int + 1).last() == fields@[i as int]);
        }
        let ghost pre = r@;
        if inject_synthetics {
            let synths = &fields[i].synthetics;
            let m = synths.len();
            let mut k: usize = 0;
            while k < m
                invariant
                    k <= m,
                    m == synths@.len(),
                    synths == &fields@[i as int].synthetics,
                    i < n,
                    n == fields@.len(),
                    r@ == pre + spec_synth_eff_entries(synths@.take(k as int), variant, i as int),
                decreases m - k,
            {
                proof {
                    assert(synths@.take(k as int + 1).drop_last() =~= synths@.take(k as int));
                    assert(synths@.take(k as int + 1).last() == synths@[k as int]);
                }
                r.push(
                    EffEntry {
                        sel: FieldSel { variant, field: i, synth: Option::Some(k) },
                        name: Option::Some(synths[k].name.clone()),
                    },
                );
                k = k + 1;
            }
            proof {
                assert(synths@.take(m as int) =~= synths@);
            }
        }
        if !fields[i].ignored {
            let name = match &fields[i].name {
                Option::Some(s) => Option::Some(s.clone()),
                Option::None => Option::None,
            };
            r.push(
                EffEntry {
                    sel: FieldSel { variant, field: i, synth: Option::None },
                    name,
                },
            );
        }
        proof {
            let synth_part = if inject_synthetics {
                spec_synth_eff_entries(fields@[i as int].synthetics@, variant, i as int)
            } else {
                Seq::<EffEntry>::empty()
            };
            let own_part: Seq<EffEntry> = if fields@[i as int].ignored {
                Seq::empty()
            } else {
                seq![
                    EffEntry {
                        sel: FieldSel {
                            variant,
                            field: i,
                            synth: Option::None,
                        },
                        name: fields@[i as int].name,
                    },
                ]
            };
            assert(r@ =~= pre + synth_part + own_part);
        }
        i = i + 1;
    }
    proof {
        assert(fields@.take(n as int) =~= fields@);
    }
    r
}

/// The number of effective fields: what `effective_fields` returns, counted.
pub fn field_count(fields: &Vec<FieldSchema>, inject_synthetics: bool) -> (r: usize)
    ensures
        r as int == spec_eff_entries(fields@, Option::None, inject_synthetics).len(),
{
    let entries = effective_fields(fields, Option::None, inject_synthetics);
    entries.len()
}

/// The scalar kind a synthetic expression produces.
pub open spec fn spec_synth_kind(e: SynthExpr) -> crate::schema::ScalarKind {
    match e {
        SynthExpr::SumU8(_i) => crate::schema::ScalarKind::KU8,
        SynthExpr::LitStr(_s) => crate::schema::ScalarKind::KStr,
    }
}

/// The scalar kind a synthetic expression produces.
pub fn synth_kind(e: &SynthExpr) -> (r: crate::schema::ScalarKind)
    ensures
        r == spec_synth_kind(*e),
{
    match e {
        SynthExpr::SumU8(_i) => crate::schema::ScalarKind::KU8,
        SynthExpr::LitStr(_s) => crate::schema::ScalarKind::KStr,
    }
}

} // verus!
