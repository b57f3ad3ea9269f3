//! Rendering of scalar values as text: decimals with their scale, quoted
//! strings, and parenthesized or braced composites.
use vstd::prelude::*;

verus! {

use crate::scalars::{DecimalData, Scalar, ScalarV};
use crate::schema::FieldV;
use crate::strings::{
    dec_digits,
    int_chars,
    left_zero_pad,
    pow10,
    push_char,
    lemma_pow10_mono,
    i128_to_string,
    pad_number_string,
};

/// The magnitude of an integer.
pub open spec fn abs_of(v: int) -> nat {
    if v < 0 {
        (-v) as nat
    } else {
        v as nat
    }
}

/// The rendering of a decimal: at scale zero the unscaled integer; at a
/// positive scale one sign for a negative value, then the magnitude's
/// quotient by ten to the scale, a dot, and the remainder padded with
/// zeros to the scale's width. Rendering the sign once keeps the text
/// parseable, so every representable decimal round-trips.
pub open spec fn dec_display(bits: int, scale: int) -> Seq<char> {
    if scale == 0 {
        int_chars(bits)
    } else {
        let mag = abs_of(bits);
        let p = pow10(scale as nat);
        (if bits < 0 {
            seq!['-']
        } else {
            Seq::<char>::empty()
        }) + dec_digits(mag / p) + seq!['.'] + left_zero_pad(dec_digits(mag % p), scale as nat)
    }
}

/// The rendering of a scalar value.
pub open spec fn scalar_display(v: ScalarV) -> Seq<char>
    decreases v,
{
    match v {
        ScalarV::Integer(x) => int_chars(x as int),
        ScalarV::Long(x) => int_chars(x as int),
        ScalarV::Short(x) => int_chars(x as int),
        ScalarV::Byte(x) => int_chars(x as int),
        ScalarV::String(s) => seq!['\''] + s + seq!['\''],
        ScalarV::Boolean(b) => if b {
            "true"@
        } else {
            "false"@
        },
        ScalarV::Timestamp(x) => int_chars(x as int),
        ScalarV::TimestampNtz(x) => int_chars(x as int),
        ScalarV::Date(x) => int_chars(x as int),
        ScalarV::Binary(bs) => seq!['['] + bytes_join(bs) + seq![']'],
        ScalarV::Decimal(bits, ty) => dec_display(
            bits as int,
            if ty.scale <= 38 {
                ty.scale as int
            } else {
                38
            },
        ),
        ScalarV::Null(_) => "null"@,
        ScalarV::Struct(fields, vals) => seq!['{'] + entries_join(fields, vals) + seq!['}'],
        ScalarV::Array(_, _, elems) => seq!['('] + elems_join(elems) + seq![')'],
        ScalarV::Mapping(_, _, _, pairs) => seq!['{'] + pairs_join(pairs) + seq!['}'],
    }
}

/// The byte values of a binary scalar, joined by comma and space.
pub open spec fn bytes_join(bs: Seq<u8>) -> Seq<char>
    decreases bs,
{
    if bs.len() == 0 {
        Seq::empty()
    } else if bs.len() == 1 {
        int_chars(bs[0] as int)
    } else {
        int_chars(bs[0] as int) + ", "@ + bytes_join(bs.drop_first())
    }
}

/// The renderings of array elements, joined by comma and space.
pub open spec fn elems_join(elems: Seq<ScalarV>) -> Seq<char>
    decreases elems,
{
    if elems.len() == 0 {
        Seq::empty()
    } else if elems.len() == 1 {
        scalar_display(elems[0])
    } else {
        scalar_display(elems[0]) + ", "@ + elems_join(elems.drop_first())
    }
}

/// The field-name and value entries of a struct, joined by comma and
/// space; a length mismatch renders the shorter prefix.
pub open spec fn entries_join(fields: Seq<FieldV>, vals: Seq<ScalarV>) -> Seq<char>
    decreases vals,
{
    if fields.len() == 0 || vals.len() == 0 {
        Seq::empty()
    } else if fields.len() == 1 || vals.len() == 1 {
        fields[0].name + ": "@ + scalar_display(vals[0])
    } else {
        fields[0].name + ": "@ + scalar_display(vals[0]) + ", "@ + entries_join(
            fields.drop_first(),
            vals.drop_first(),
        )
    }
}

/// The key and value renderings of a map, joined by comma and space.
pub open spec fn pairs_join(pairs: Seq<(ScalarV, ScalarV)>) -> Seq<char>
    decreases pairs,
{
    if pairs.len() == 0 {
        Seq::empty()
    } else if pairs.len() == 1 {
        scalar_display(pairs[0].0) + ": "@ + scalar_display(pairs[0].1)
    } else {
        scalar_display(pairs[0].0) + ": "@ + scalar_display(pairs[0].1) + ", "@ + pairs_join(
            pairs.drop_first(),
        )
    }
}

/// Joining distributes over appending one byte.
proof fn lemma_bytes_join_snoc(bs: Seq<u8>, x: u8)
    ensures
        bytes_join(bs.push(x)) == if bs.len() == 0 {
            int_chars(x as int)
        } else {
            bytes_join(bs) + ", "@ + int_chars(x as int)
        },
    decreases bs.len(),
{
    if bs.len() == 0 {
        assert(bs.push(x)[0] == x);
        assert(bytes_join(bs.push(x)) == int_chars(x as int));
    } else {
        assert(bs.push(x).drop_first() =~= bs.drop_first().push(x));
        lemma_bytes_join_snoc(bs.drop_first(), x);
        if bs.len() == 1 {
            assert(bytes_join(bs.push(x)) =~= bytes_join(bs) + ", "@ + int_chars(x as int));
        } else {
            assert(bytes_join(bs.push(x)) =~= bytes_join(bs) + ", "@ + int_chars(x as int));
        }
    }
}

/// Joining distributes over appending one element.
proof fn lemma_elems_join_snoc(elems: Seq<ScalarV>, x: ScalarV)
    ensures
        elems_join(elems.push(x)) == if elems.len() == 0 {
            scalar_display(x)
        } else {
            elems_join(elems) + ", "@ + scalar_display(x)
        },
    decreases elems.len(),
{
    if elems.len() == 0 {
        assert(elems.push(x)[0] == x);
        assert(elems_join(elems.push(x)) == scalar_display(x));
    } else {
        assert(elems.push(x).drop_first() =~= elems.drop_first().push(x));
        lemma_elems_join_snoc(elems.drop_first(), x);
        if elems.len() == 1 {
            assert(elems_join(elems.push(x)) =~= elems_join(elems) + ", "@ + scalar_display(x));
        } else {
            assert(elems_join(elems.push(x)) =~= elems_join(elems) + ", "@ + scalar_display(x));
        }
    }
}

/// Joining distributes over appending one entry.
proof fn lemma_entries_join_snoc(fields: Seq<FieldV>, vals: Seq<ScalarV>, f: FieldV, v: ScalarV)
    requires
        fields.len() == vals.len(),
    ensures
        entries_join(fields.push(f), vals.push(v)) == if vals.len() == 0 {
            f.name + ": "@ + scalar_display(v)
        } else {
            entries_join(fields, vals) + ", "@ + (f.name + ": "@ + scalar_display(v))
        },
    decreases vals.len(),
{
    if vals.len() == 0 {
        assert(fields.push(f)[0] == f);
        assert(vals.push(v)[0] == v);
        assert(entries_join(fields.push(f), vals.push(v)) =~= f.name + ": "@ + scalar_display(
            v,
        ));
    } else {
        assert(fields.push(f).drop_first() =~= fields.drop_first().push(f));
        assert(vals.push(v).drop_first() =~= vals.drop_first().push(v));
        lemma_entries_join_snoc(fields.drop_first(), vals.drop_first(), f, v);
        assert(entries_join(fields.push(f), vals.push(v)) =~= entries_join(fields, vals) + ", "@
            + (f.name + ": "@ + scalar_display(v)));
    }
}

/// The join of two equal-length prefixes is the join of the shorter of the
/// two sequences.
proof fn lemma_entries_join_min(fields: Seq<FieldV>, vals: Seq<ScalarV>, m: int)
    requires
        m == if fields.len() <= vals.len() {
            fields.len() as int
        } else {
            vals.len() as int
        },
    ensures
        entries_join(fields, vals) == entries_join(fields.take(m), vals.take(m)),
    decreases vals.len(),
{
    if fields.len() == 0 || vals.len() == 0 {
        assert(entries_join(fields.take(m), vals.take(m)) == Seq::<char>::empty());
    } else if fields.len() == 1 || vals.len() == 1 {
        assert(m == 1);
        assert(fields.take(1)[0] == fields[0]);
        assert(vals.take(1)[0] == vals[0]);
        assert(entries_join(fields.take(m), vals.take(m)) == fields[0].name + ": "@
            + scalar_display(vals[0]));
    } else {
        lemma_entries_join_min(fields.drop_first(), vals.drop_first(), m - 1);
        assert(fields.take(m).drop_first() =~= fields.drop_first().take(m - 1));
        assert(vals.take(m).drop_first() =~= vals.drop_first().take(m - 1));
        assert(fields.take(m)[0] == fields[0]);
        assert(vals.take(m)[0] == vals[0]);
    }
}

/// Joining distributes over appending one pair.
proof fn lemma_pairs_join_snoc(pairs: Seq<(ScalarV, ScalarV)>, x: (ScalarV, ScalarV))
    ensures
        pairs_join(pairs.push(x)) == if pairs.len() == 0 {
            scalar_display(x.0) + ": "@ + scalar_display(x.1)
        } else {
            pairs_join(pairs) + ", "@ + (scalar_display(x.0) + ": "@ + scalar_display(x.1))
        },
    decreases pairs.len(),
{
    if pairs.len() == 0 {
        assert(pairs.push(x)[0] == x);
        assert(pairs_join(pairs.push(x)) =~= scalar_display(x.0) + ": "@ + scalar_display(x.1));
    } else {
        assert(pairs.push(x).drop_first() =~= pairs.drop_first().push(x));
        lemma_pairs_join_snoc(pairs.drop_first(), x);
        assert(pairs_join(pairs.push(x)) =~= pairs_join(pairs) + ", "@ + (scalar_display(x.0)
            + ": "@ + scalar_display(x.1)));
    }
}

/// Ten to a power below 39, as a 128-bit value.
fn pow10_u128(e: u8) -> (r: u128)
    requires
        e <= 38,
    ensures
        r == pow10(e as nat),
        r >= 1,
{
    proof {
        reveal_with_fuel(pow10, 40);
        assert(pow10(38nat) == 100000000000000000000000000000000000000);
        lemma_pow10_mono(e as nat, 38);
    }
    let mut r: u128 = 1;
    let mut i: u8 = 0;
    while i < e
        invariant
            i <= e,
            e <= 38,
            r == pow10(i as nat),
            pow10(e as nat) <= pow10(38nat),
            pow10(38nat) == 100000000000000000000000000000000000000,
        decreases e - i,
    {
        proof {
            lemma_pow10_mono((i + 1) as nat, e as nat);
            assert(pow10((i + 1) as nat) == 10 * pow10(i as nat));
        }
        r = r * 10;
        i = i + 1;
    }
    proof {
        lemma_pow10_mono(0, e as nat);
    }
    r
}

/// Renders a decimal value: its unscaled integer at scale zero, otherwise
/// its sign, the magnitude's integer part, a dot, and the zero-padded
/// remainder.
pub fn decimal_display_string(d: &DecimalData) -> (r: String)
    requires
        d.ty.scale <= 38,
    ensures
        r@ == dec_display(d.bits as int, d.ty.scale as int),
{
    let scale = d.ty.scale();
    if scale == 0 {
        return i128_to_string(d.bits);
    }
    let p10 = pow10_u128(scale);
    let mag: u128 = if d.bits < 0 {
        if d.bits == i128::MIN {
            170141183460469231731687303715884105728u128
        } else {
            (-d.bits) as u128
        }
    } else {
        d.bits as u128
    };
    let q: u128 = mag / p10;
    let rem: u128 = mag % p10;
    proof {
        assert(mag as nat == abs_of(d.bits as int));
        assert(q as nat == abs_of(d.bits as int) / (pow10(scale as nat)));
        assert(rem as nat == abs_of(d.bits as int) % (pow10(scale as nat)));
    }
    let mut out = String::new();
    if d.bits < 0 {
        push_char(&mut out, '-');
    }
    let qs = crate::strings::u128_to_string(q);
    out.append(qs.as_str());
    push_char(&mut out, '.');
    let rs = crate::strings::u128_to_string(rem);
    let padded = pad_number_string(rs.as_str(), scale as usize);
    let r = out.concat(padded.as_str());
    proof {
        assert(r@ =~= dec_display(d.bits as int, d.ty.scale as int));
    }
    r
}

impl Scalar {
    /// Renders this scalar as text. A decimal type's scale never exceeds
    /// the format's bound of 38, and the rendering clamps it there.
    pub fn display_string(&self) -> (r: String)
        ensures
            r@ == scalar_display(self@),
        decreases *self,
    {
        match self {
            Scalar::Integer(x) => i128_to_string(*x as i128),
            Scalar::Long(x) => i128_to_string(*x as i128),
            Scalar::Short(x) => i128_to_string(*x as i128),
            Scalar::Byte(x) => i128_to_string(*x as i128),
            Scalar::Timestamp(x) => i128_to_string(*x as i128),
            Scalar::TimestampNtz(x) => i128_to_string(*x as i128),
            Scalar::Date(x) => i128_to_string(*x as i128),
            Scalar::Boolean(b) => {
                if *b {
                    String::from_str("true")
                } else {
                    String::from_str("false")
                }
            },
            Scalar::Null(_) => String::from_str("null"),
            Scalar::String(s) => {
                let mut out = String::new();
                push_char(&mut out, '\'');
                let mut r = out.concat(s.as_str());
                push_char(&mut r, '\'');
                proof {
                    assert(r@ =~= seq!['\''] + s@ + seq!['\'']);
                }
                r
            },
            Scalar::Decimal(d) => {
                if d.ty.scale <= 38 {
                    decimal_display_string(d)
                } else {
                    let clamped = DecimalData { bits: d.bits, ty: crate::schema::DecimalType {
                        precision: d.ty.precision,
                        scale: 38,
                    } };
                    decimal_display_string(&clamped)
                }
            },
            Scalar::Binary(bs) => {
                let mut out = String::new();
                push_char(&mut out, '[');
                let ghost base = seq!['['];
                let n = bs.len();
                let mut i: usize = 0;
                while i < n
                    invariant
                        n == bs@.len(),
                        i <= n,
                        out@ == base + bytes_join(bs@.take(i as int)),
                    decreases n - i,
                {
                    proof {
                        assert(bs@.take(i + 1) =~= bs@.take(i as int).push(bs@[i as int]));
                        lemma_bytes_join_snoc(bs@.take(i as int), bs@[i as int]);
                    }
                    if i > 0 {
                        out.append(", ");
                    }
                    let bstr = i128_to_string(bs[i] as i128);
                    out.append(bstr.as_str());
                    i = i + 1;
                }
                push_char(&mut out, ']');
                proof {
                    assert(bs@.take(n as int) =~= bs@);
                    assert(out@ =~= seq!['['] + bytes_join(bs@) + seq![']']);
                }
                out
            },
            Scalar::Array(ad) => {
                proof {
                    crate::scalars::lemma_elems_view(ad.elements@);
                }
                let ghost ev = crate::scalars::elems_view(ad.elements@);
                let mut out = String::new();
                push_char(&mut out, '(');
                let ghost base = seq!['('];
                let n = ad.elements.len();
                let mut i: usize = 0;
                while i < n
                    invariant
                        *self matches Scalar::Array(a2) && a2 == *ad,
                        n == ad.elements@.len(),
                        ev == crate::scalars::elems_view(ad.elements@),
                        ev.len() == n,
                        i <= n,
                        forall|j: int|
                            #![trigger ad.elements@[j]]
                            0 <= j < n ==> ev[j] == crate::scalars::sc_view(ad.elements@[j]),
                        out@ == base + elems_join(ev.take(i as int)),
                    decreases n - i,
                {
                    proof {
                        assert(ev.take(i + 1) =~= ev.take(i as int).push(ev[i as int]));
                        lemma_elems_join_snoc(ev.take(i as int), ev[i as int]);
                    }
                    if i > 0 {
                        out.append(", ");
                    }
                    assert(decreases_to!(*self => ad.elements@[i as int]));
                    let es = ad.elements[i].display_string();
                    out.append(es.as_str());
                    i = i + 1;
                }
                push_char(&mut out, ')');
                proof {
                    assert(ev.take(n as int) =~= ev);
                    assert(out@ =~= seq!['('] + elems_join(ev) + seq![')']);
                }
                out
            },
            Scalar::Struct(sd) => {
                proof {
                    crate::schema::lemma_fields_view(sd.fields@);
                    crate::scalars::lemma_elems_view(sd.values@);
                }
                let ghost fv = crate::schema::fields_view(sd.fields@);
                let ghost vv = crate::scalars::elems_view(sd.values@);
                let mut out = String::new();
                push_char(&mut out, '{');
                let ghost base = seq!['{'];
                let fl = sd.fields.len();
                let vl = sd.values.len();
                let m = if fl <= vl {
                    fl
                } else {
                    vl
                };
                let mut i: usize = 0;
                while i < m
                    invariant
                        *self matches Scalar::Struct(s2) && s2 == *sd,
                        fl == sd.fields@.len(),
                        vl == sd.values@.len(),
                        m == if fl <= vl {
                            fl
                        } else {
                            vl
                        },
                        fv == crate::schema::fields_view(sd.fields@),
                        vv == crate::scalars::elems_view(sd.values@),
                        fv.len() == fl,
                        vv.len() == vl,
                        i <= m,
                        forall|j: int|
                            #![trigger sd.fields@[j]]
                            0 <= j < fl ==> fv[j] == crate::schema::sf_view(sd.fields@[j]),
                        forall|j: int|
                            #![trigger sd.values@[j]]
                            0 <= j < vl ==> vv[j] == crate::scalars::sc_view(sd.values@[j]),
                        out@ == base + entries_join(fv.take(i as int), vv.take(i as int)),
                    decreases m - i,
                {
                    proof {
                        assert(fv.take(i + 1) =~= fv.take(i as int).push(fv[i as int]));
                        assert(vv.take(i + 1) =~= vv.take(i as int).push(vv[i as int]));
                        lemma_entries_join_snoc(
                            fv.take(i as int),
                            vv.take(i as int),
                            fv[i as int],
                            vv[i as int],
                        );
                    }
                    if i > 0 {
                        out.append(", ");
                    }
                    out.append(sd.fields[i].name.as_str());
                    out.append(": ");
                    assert(decreases_to!(*self => sd.values@[i as int]));
                    let es = sd.values[i].display_string();
                    out.append(es.as_str());
                    i = i + 1;
                }
                push_char(&mut out, '}');
                proof {
                    lemma_entries_join_min(fv, vv, m as int);
                    assert(fv.take(m as int) =~= fv.take(m as int));
                    assert(out@ =~= seq!['{'] + entries_join(fv, vv) + seq!['}']);
                }
                out
            },
            Scalar::Mapping(md) => {
                proof {
                    crate::scalars::lemma_pairs_view(md.pairs@);
                }
                let ghost pv = crate::scalars::pairs_view(md.pairs@);
                let mut out = String::new();
                push_char(&mut out, '{');
                let ghost base = seq!['{'];
                let n = md.pairs.len();
                let mut i: usize = 0;
                while i < n
                    invariant
                        *self matches Scalar::Mapping(m2) && m2 == *md,
                        n == md.pairs@.len(),
                        pv == crate::scalars::pairs_view(md.pairs@),
                        pv.len() == n,
                        i <= n,
                        forall|j: int|
                            #![trigger md.pairs@[j]]
                            0 <= j < n ==> pv[j] == (
                                crate::scalars::sc_view(md.pairs@[j].0),
                                crate::scalars::sc_view(md.pairs@[j].1),
                            ),
                        out@ == base + pairs_join(pv.take(i as int)),
                    decreases n - i,
                {
                    proof {
                        assert(pv.take(i + 1) =~= pv.take(i as int).push(pv[i as int]));
                        lemma_pairs_join_snoc(pv.take(i as int), pv[i as int]);
                    }
                    if i > 0 {
                        out.append(", ");
                    }
                    assert(decreases_to!(*self => md.pairs@[i as int]));
                    assert(decreases_to!(md.pairs@[i as int] => md.pairs@[i as int].0));
                    let ks = md.pairs[i].0.display_string();
                    out.append(ks.as_str());
                    out.append(": ");
                    let vs = md.pairs[i].1.display_string();
                    out.append(vs.as_str());
                    i = i + 1;
                }
                push_char(&mut out, '}');
                proof {
                    assert(pv.take(n as int) =~= pv);
                    assert(out@ =~= seq!['{'] + pairs_join(pv) + seq!['}']);
                }
                out
            },
        }
    }
}

} // verus!
