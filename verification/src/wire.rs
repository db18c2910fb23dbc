//! The transportable value model: every parameter and result that crosses
//! the network boundary is one of these values, and a function's whole
//! parameter list is collapsed into a single value — the argument bundle —
//! before it travels. Packing and unpacking are exact inverses, including
//! the deliberate special case that a one-parameter function sends its value
//! bare, without a wrapping tuple.

use vstd::prelude::*;
use crate::strutil::dec_rep;
use crate::strutil::dec_string;

verus! {

/// A value in the wire codec's shape: what the black-box serializer can
/// carry across the boundary.
#[derive(Debug, PartialEq, Eq)]
pub enum WireValue {
    Null,
    Bool(bool),
    Int(i64),
    Text(String),
    List(Vec<WireValue>),
}

/// The mathematical shadow of a wire value, used by every contract.
pub enum WireV {
    Null,
    Bool(bool),
    Int(int),
    Text(Seq<char>),
    List(Seq<WireV>),
}

/// The model of a wire value.
pub open spec fn wire_view(v: WireValue) -> WireV
    decreases v,
{
    match v {
        WireValue::Null => WireV::Null,
        WireValue::Bool(b) => WireV::Bool(b),
        WireValue::Int(i) => WireV::Int(i as int),
        WireValue::Text(s) => WireV::Text(s@),
        WireValue::List(l) => WireV::List(wire_views(l@)),
    }
}

/// The models of a sequence of wire values.
pub open spec fn wire_views(vs: Seq<WireValue>) -> Seq<WireV>
    decreases vs,
{
    if vs.len() == 0 {
        Seq::empty()
    } else {
        seq![wire_view(vs[0])] + wire_views(vs.drop_first())
    }
}

/// Pointwise reading of `wire_views`: it has the same length as its input
/// and models each element in place.
pub proof fn lemma_wire_views(vs: Seq<WireValue>)
    ensures
        wire_views(vs).len() == vs.len(),
        forall|i: int| 0 <= i < vs.len() ==> #[trigger] wire_views(vs)[i] == wire_view(vs[i]),
    decreases vs.len(),
{
    if vs.len() > 0 {
        lemma_wire_views(vs.drop_first());
    }
}

/// The bundling rule: no parameters travel as the unit value, exactly one
/// parameter travels bare, and two or more travel as an ordered tuple of
/// all parameter values, in declaration order.
pub open spec fn spec_pack(vals: Seq<WireV>) -> WireV {
    if vals.len() == 0 {
        WireV::Null
    } else if vals.len() == 1 {
        vals[0]
    } else {
        WireV::List(vals)
    }
}

/// The unbundling rule, keyed by the declared arity: the exact inverse of
/// `spec_pack` on well-shaped bundles, and `None` on a bundle whose shape
/// does not match the arity.
pub open spec fn spec_unpack(bundle: WireV, arity: nat) -> Option<Seq<WireV>> {
    if arity == 0 {
        if bundle is Null {
            Some(Seq::empty())
        } else {
            None
        }
    } else if arity == 1 {
        Some(seq![bundle])
    } else {
        match bundle {
            WireV::List(vals) => if vals.len() == arity {
                Some(vals)
            } else {
                None
            },
            _ => None,
        }
    }
}

/// Packs ordered parameter values into one argument bundle.
pub fn pack_args(vals: Vec<WireValue>) -> (b: WireValue)
    ensures
        wire_view(b) == spec_pack(wire_views(vals@)),
{
    if vals.len() == 0 {
        proof {
            lemma_wire_views(vals@);
        }
        WireValue::Null
    } else if vals.len() == 1 {
        let ghost g = vals@;
        let mut vals = vals;
        let v = vals.pop().unwrap();
        proof {
            lemma_wire_views(g);
            assert(v == g[0]);
            assert(wire_view(v) == wire_views(g)[0]);
        }
        v
    } else {
        let ghost g = vals@;
        let b = WireValue::List(vals);
        proof {
            lemma_wire_views(g);
            assert(wire_views(g) =~= wire_view(b)->List_0);
        }
        b
    }
}

/// Unpacks an argument bundle back into ordered parameter values, `None`
/// when the bundle's shape does not match the declared arity.
pub fn unpack_args(bundle: WireValue, arity: usize) -> (r: Option<Vec<WireValue>>)
    ensures
        match r {
            Some(vals) => spec_unpack(wire_view(bundle), arity as nat) == Some(wire_views(vals@)),
            None => spec_unpack(wire_view(bundle), arity as nat) is None,
        },
{
    if arity == 0 {
        match bundle {
            WireValue::Null => {
                let r: Vec<WireValue> = Vec::new();
                proof {
                    lemma_wire_views(r@);
                    assert(wire_views(r@) =~= Seq::<WireV>::empty());
                }
                Some(r)
            },
            _ => None,
        }
    } else if arity == 1 {
        let ghost b = bundle;
        let r = vec![bundle];
        proof {
            lemma_wire_views(r@);
            assert(wire_views(r@) =~= seq![wire_view(b)]);
        }
        Some(r)
    } else {
        match bundle {
            WireValue::List(vals) => {
                if vals.len() == arity {
                    proof {
                        lemma_wire_views(vals@);
                        assert(wire_view(WireValue::List(vals))->List_0 =~= wire_views(vals@));
                    }
                    Some(vals)
                } else {
                    proof {
                        lemma_wire_views(vals@);
                    }
                    None
                }
            },
            _ => None,
        }
    }
}

/// The escape of one character inside a wire-codec string: the quote and
/// the backslash take a backslash, the common control characters take their
/// short forms, any other control character takes the four-digit form, and
/// everything else stands for itself.
pub open spec fn json_escape_char(c: char) -> Seq<char> {
    if c == '"' {
        seq!['\\', '"']
    } else if c == '\\' {
        seq!['\\', '\\']
    } else if c == '\n' {
        seq!['\\', 'n']
    } else if c == '\r' {
        seq!['\\', 'r']
    } else if c == '\t' {
        seq!['\\', 't']
    } else if c as int == 8 {
        seq!['\\', 'b']
    } else if c as int == 12 {
        seq!['\\', 'f']
    } else if (c as int) < 32 {
        let hi = crate::hash::hex_digit((c as int / 16) as u64);
        let lo = crate::hash::hex_digit((c as int % 16) as u64);
        seq!['\\', 'u', '0', '0', hi, lo]
    } else {
        seq![c]
    }
}

/// The escape of a whole text.
pub open spec fn json_escape(s: Seq<char>) -> Seq<char>
    decreases s.len(),
{
    if s.len() == 0 {
        Seq::empty()
    } else {
        json_escape_char(s[0]) + json_escape(s.drop_first())
    }
}

/// A quoted, escaped wire-codec string.
pub open spec fn json_string(s: Seq<char>) -> Seq<char> {
    seq!['"'] + json_escape(s) + seq!['"']
}

/// A wire-codec integer: minimal decimal digits, with a sign when negative.
pub open spec fn json_int(i: int) -> Seq<char> {
    if i >= 0 {
        dec_rep(i as nat)
    } else {
        seq!['-'] + dec_rep((-i) as nat)
    }
}

/// The wire-codec text of a value.
pub open spec fn json_of(v: WireV) -> Seq<char>
    decreases v,
{
    match v {
        WireV::Null => "null"@,
        WireV::Bool(b) => if b {
            "true"@
        } else {
            "false"@
        },
        WireV::Int(i) => json_int(i),
        WireV::Text(s) => json_string(s),
        WireV::List(l) => seq!['['] + json_list(l) + seq![']'],
    }
}

/// The comma-separated wire-codec texts of a value sequence.
pub open spec fn json_list(vs: Seq<WireV>) -> Seq<char>
    decreases vs,
{
    if vs.len() == 0 {
        Seq::empty()
    } else if vs.len() == 1 {
        json_of(vs[0])
    } else {
        json_of(vs[0]) + seq![','] + json_list(vs.drop_first())
    }
}

/// One more escaped character extends the escape at the end.
proof fn lemma_json_escape_snoc(s: Seq<char>, c: char)
    ensures
        json_escape(s.push(c)) == json_escape(s) + json_escape_char(c),
    decreases s.len(),
{
    reveal_with_fuel(json_escape, 3);
    if s.len() == 0 {
        assert(s.push(c).drop_first() =~= Seq::<char>::empty());
        assert(json_escape(s.push(c)) =~= json_escape(s) + json_escape_char(c));
    } else {
        assert(s.push(c).drop_first() =~= s.drop_first().push(c));
        lemma_json_escape_snoc(s.drop_first(), c);
        assert(json_escape(s.push(c)) =~= json_escape(s) + json_escape_char(c));
    }
}

/// One more value extends the comma-separated list at the end.
proof fn lemma_json_list_snoc(s: Seq<WireV>, j: int)
    requires
        1 <= j < s.len(),
    ensures
        json_list(s.take(j + 1)) == json_list(s.take(j)) + seq![','] + json_of(s[j]),
    decreases j,
{
    reveal_with_fuel(json_list, 3);
    if j == 1 {
        assert(s.take(2).drop_first() =~= seq![s[1]]);
        assert(s.take(1) =~= seq![s[0]]);
        assert(json_list(s.take(2)) =~= json_list(s.take(1)) + seq![','] + json_of(s[1]));
    } else {
        assert(s.take(j + 1).drop_first() =~= s.drop_first().take(j));
        assert(s.take(j).drop_first() =~= s.drop_first().take(j - 1));
        lemma_json_list_snoc(s.drop_first(), j - 1);
        assert(json_list(s.take(j + 1)) =~= json_list(s.take(j)) + seq![','] + json_of(s[j]));
    }
}

/// Appends the escaped text of `s` to `out`.
#[verifier::loop_isolation(false)]
#[verifier::rlimit(50)]
fn push_escaped(s: &str, out: &mut String)
    ensures
        final(out)@ == old(out)@ + json_escape(s@),
{
    let n = s.unicode_len();
    let mut i: usize = 0;
    while i < n
        invariant
            i <= n,
            out@ == old(out)@ + json_escape(s@.take(i as int)),
        decreases n - i,
    {
        let ghost before = out@;
        let c = s.get_char(i);
        let code = c as u32;
        if c == '"' {
            out.append("\\\"");
            proof {
                reveal_strlit("\\\"");
                assert(out@ =~= before + json_escape_char(c));
            }
        } else if c == '\\' {
            out.append("\\\\");
            proof {
                reveal_strlit("\\\\");
                assert(out@ =~= before + json_escape_char(c));
            }
        } else if c == '\n' {
            out.append("\\n");
            proof {
                reveal_strlit("\\n");
                assert(out@ =~= before + json_escape_char(c));
            }
        } else if c == '\r' {
            out.append("\\r");
            proof {
                reveal_strlit("\\r");
                assert(out@ =~= before + json_escape_char(c));
            }
        } else if c == '\t' {
            out.append("\\t");
            proof {
                reveal_strlit("\\t");
                assert(out@ =~= before + json_escape_char(c));
            }
        } else if code == 8 {
            out.append("\\b");
            proof {
                reveal_strlit("\\b");
                assert(out@ =~= before + json_escape_char(c));
            }
        } else if code == 12 {
            out.append("\\f");
            proof {
                reveal_strlit("\\f");
                assert(out@ =~= before + json_escape_char(c));
            }
        } else if code < 32 {
            out.append("\\u00");
            out.append(crate::hash::hex_digit_str((code / 16) as u64));
            out.append(crate::hash::hex_digit_str((code % 16) as u64));
            proof {
                reveal_strlit("\\u00");
                assert(out@ =~= before + json_escape_char(c));
            }
        } else {
            let one = s.substring_char(i, i + 1);
            out.append(one);
            proof {
                assert(one@ =~= seq![c]);
                assert(out@ =~= before + json_escape_char(c));
            }
        }
        proof {
            assert(s@.take(i + 1) =~= s@.take(i as int).push(c));
            lemma_json_escape_snoc(s@.take(i as int), c);
        }
        i = i + 1;
    }
    proof {
        assert(s@.take(s@.len() as int) =~= s@);
    }
}

/// Appends the wire-codec integer text of `i` to `out`.
fn push_json_int(i: i64, out: &mut String)
    ensures
        final(out)@ == old(out)@ + json_int(i as int),
{
    if i >= 0 {
        let s = dec_string(i as u64);
        out.append(s.as_str());
    } else {
        out.append("-");
        let m: u64 = ((-(i + 1)) as u64) + 1;
        proof {
            assert(m as nat == (-(i as int)) as nat);
        }
        let s = dec_string(m);
        out.append(s.as_str());
        proof {
            reveal_strlit("-");
            assert(out@ =~= old(out)@ + json_int(i as int));
        }
    }
}

/// Appends the wire-codec text of `v` to `out`.
#[verifier::loop_isolation(false)]
#[verifier::rlimit(50)]
fn push_json_value(v: &WireValue, out: &mut String)
    ensures
        final(out)@ == old(out)@ + json_of(wire_view(*v)),
    decreases *v,
{
    match v {
        WireValue::Null => {
            out.append("null");
        },
        WireValue::Bool(b) => {
            if *b {
                out.append("true");
            } else {
                out.append("false");
            }
        },
        WireValue::Int(i) => {
            push_json_int(*i, out);
        },
        WireValue::Text(s) => {
            out.append("\"");
            push_escaped(s.as_str(), out);
            out.append("\"");
            proof {
                reveal_strlit("\"");
                assert(out@ =~= old(out)@ + json_of(wire_view(*v)));
            }
        },
        WireValue::List(l) => {
            out.append("[");
            let ghost lvs = wire_views(l@);
            let ghost after_open = out@;
            let mut j: usize = 0;
            while j < l.len()
                invariant
                    j <= l@.len(),
                    lvs == wire_views(l@),
                    out@ == after_open + json_list(lvs.take(j as int)),
                decreases l@.len() - j,
            {
                proof {
                    lemma_wire_views(l@);
                    assert(decreases_to!(*v => (*v)->List_0));
                    assert((*v)->List_0 == *l);
                    assert(decreases_to!(*l => l@));
                    assert(decreases_to!(l@ => l@[j as int]));
                }
                if j > 0 {
                    out.append(",");
                    proof {
                        reveal_strlit(",");
                    }
                }
                push_json_value(&l[j], out);
                proof {
                    if j == 0 {
                        assert(lvs.take(1) =~= seq![lvs[0]]);
                        assert(json_list(lvs.take(0)) =~= Seq::<char>::empty());
                    } else {
                        lemma_json_list_snoc(lvs, j as int);
                    }
                }
                j = j + 1;
            }
            proof {
                lemma_wire_views(l@);
                assert(lvs.take(lvs.len() as int) =~= lvs);
            }
            out.append("]");
            proof {
                reveal_strlit("[");
                reveal_strlit("]");
                assert("["@ =~= seq!['[']);
                assert("]"@ =~= seq![']']);
                assert(out@ =~= old(out)@ + json_of(wire_view(*v)));
            }
        },
    }
}

/// The wire-codec text of a value: what the black-box serializer sends for
/// it across the boundary.
pub fn json_encode(v: &WireValue) -> (r: String)
    ensures
        r@ == json_of(wire_view(*v)),
{
    let mut out = String::new();
    push_json_value(v, &mut out);
    out
}

/// Appends a quoted, escaped wire-codec string to `out`.
pub(crate) fn push_json_string(s: &str, out: &mut String)
    ensures
        final(out)@ == old(out)@ + json_string(s@),
{
    out.append("\"");
    push_escaped(s, out);
    out.append("\"");
    proof {
        reveal_strlit("\"");
        assert(out@ =~= old(out)@ + json_string(s@));
    }
}

/// The pack/unpack inverse law: for every arity — zero, one, or many —
/// unpacking a packed parameter list under its own arity yields exactly the
/// original ordered values, including the bare single-parameter case.
pub proof fn lemma_pack_unpack_inverse(vals: Seq<WireV>)
    ensures
        spec_unpack(spec_pack(vals), vals.len()) == Some(vals),
{
    if vals.len() == 1 {
        assert(seq![spec_pack(vals)] =~= vals);
    }
}

} // verus!
