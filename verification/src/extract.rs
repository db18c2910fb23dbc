//! The inline-event-handler extractor: the build-time transform over the
//! event bindings of one page-owning function. A binding whose single
//! argument names a function is rewritten to dispatch on that function's
//! hashed identifier; a binding whose single argument is an inline handler
//! expression gets a fresh addressable entry point — exported under a name
//! built from the owning function, a per-owner ordinal and the content hash
//! of the handler's body — and is rewritten to dispatch on that full name.
//! Anything else is left untouched.

use vstd::prelude::*;
use crate::hash::spec_stable_hash;
use crate::hash::stable_hash;
use crate::strutil::dec_rep;
use crate::strutil::dec_string;
use crate::strutil::lemma_dec_sep_distinct;

verus! {

/// The argument of an event binding: a reference to a named function, an
/// inline handler expression (its body text), an already-rewritten dispatch
/// string, or anything else the extractor must not touch.
#[derive(Debug, PartialEq, Eq)]
pub enum HandlerArg {
    NamedRef(String),
    Inline(String),
    Dispatch(String),
    Opaque,
}

/// One event-binding call site: the bound method's name and its arguments.
pub struct Binding {
    pub method: String,
    pub args: Vec<HandlerArg>,
}

/// An addressable entry point extracted from an inline handler: its export
/// name and the handler's body text, preserved verbatim.
pub struct EntryPoint {
    pub export_name: String,
    pub body: String,
}

/// The mathematical shadow of a binding argument.
pub enum ArgV {
    NamedRef(Seq<char>),
    Inline(Seq<char>),
    Dispatch(Seq<char>),
    Opaque,
}

/// The mathematical shadow of a binding.
pub struct BindingV {
    pub method: Seq<char>,
    pub args: Seq<ArgV>,
}

/// The mathematical shadow of an entry point.
pub struct EntryV {
    pub export_name: Seq<char>,
    pub body: Seq<char>,
}

/// The model of a binding argument.
pub open spec fn arg_view(a: HandlerArg) -> ArgV {
    match a {
        HandlerArg::NamedRef(s) => ArgV::NamedRef(s@),
        HandlerArg::Inline(s) => ArgV::Inline(s@),
        HandlerArg::Dispatch(s) => ArgV::Dispatch(s@),
        HandlerArg::Opaque => ArgV::Opaque,
    }
}

/// The model of a binding.
pub open spec fn binding_view(b: Binding) -> BindingV {
    BindingV { method: b.method@, args: b.args@.map_values(|a: HandlerArg| arg_view(a)) }
}

/// The models of a binding sequence.
pub open spec fn bindings_view(bs: Seq<Binding>) -> Seq<BindingV> {
    bs.map_values(|b: Binding| binding_view(b))
}

/// The models of an entry-point sequence.
pub open spec fn entries_view(es: Seq<EntryPoint>) -> Seq<EntryV> {
    es.map_values(|e: EntryPoint| EntryV { export_name: e.export_name@, body: e.body@ })
}

/// A binding the extractor rewrites through the named-function rule.
pub open spec fn is_named_binding(b: BindingV) -> bool {
    b.method == "on_click"@ && b.args.len() == 1 && b.args[0] is NamedRef
}

/// A binding the extractor rewrites through the inline-handler rule.
pub open spec fn is_inline_binding(b: BindingV) -> bool {
    b.method == "on_click"@ && b.args.len() == 1 && b.args[0] is Inline
}

/// The dispatch string for a named-function handler: the function's hashed
/// path under the `h_` prefix, looked up through the render-time table.
pub open spec fn spec_named_dispatch(path: Seq<char>) -> Seq<char> {
    "Lithe.dispatch('h_"@ + spec_stable_hash(path) + "')"@
}

/// The export name of an extracted entry point: owning function, `_anon_`,
/// the per-owner ordinal, and the content hash of the handler's body.
pub open spec fn spec_export_name(base: Seq<char>, ordinal: nat, body: Seq<char>) -> Seq<char> {
    base + "_anon_"@ + dec_rep(ordinal) + "_"@ + spec_stable_hash(body)
}

/// The dispatch string for an extracted handler: it carries the full export
/// name, because extracted handlers are looked up by exact name.
pub open spec fn spec_inline_dispatch(name: Seq<char>) -> Seq<char> {
    "Lithe.dispatch('"@ + name + "')"@
}

/// The whole extraction, processed front to back: `count` inline handlers
/// were already extracted for this owner, so the next one takes ordinal
/// `count + 1`. Yields the rewritten bindings and the new entry points.
pub open spec fn spec_extract(base: Seq<char>, bs: Seq<BindingV>, count: nat) -> (Seq<BindingV>,
    Seq<EntryV>)
    decreases bs.len(),
{
    if bs.len() == 0 {
        (Seq::empty(), Seq::empty())
    } else {
        let b = bs[0];
        if is_named_binding(b) {
            let nb = BindingV {
                method: b.method,
                args: seq![ArgV::Dispatch(spec_named_dispatch(b.args[0]->NamedRef_0))],
            };
            let rest = spec_extract(base, bs.drop_first(), count);
            (seq![nb] + rest.0, rest.1)
        } else if is_inline_binding(b) {
            let name = spec_export_name(base, count + 1, b.args[0]->Inline_0);
            let nb = BindingV {
                method: b.method,
                args: seq![ArgV::Dispatch(spec_inline_dispatch(name))],
            };
            let ep = EntryV { export_name: name, body: b.args[0]->Inline_0 };
            let rest = spec_extract(base, bs.drop_first(), count + 1);
            (seq![nb] + rest.0, seq![ep] + rest.1)
        } else {
            let rest = spec_extract(base, bs.drop_first(), count);
            (seq![b] + rest.0, rest.1)
        }
    }
}

/// Compares a string against a literal.
fn str_is(a: &String, lit: &str) -> (r: bool)
    ensures
        r == (a@ == lit@),
{
    let l = lit.to_owned();
    *a == l
}

/// Builds the dispatch string for a named-function handler.
fn named_dispatch(path: &String) -> (r: String)
    ensures
        r@ == spec_named_dispatch(path@),
{
    let mut r = "Lithe.dispatch('h_".to_owned();
    let h = stable_hash(path.as_str());
    r.append(h.as_str());
    r.append("')");
    r
}

/// Builds the export name of an extracted entry point.
fn export_name(base: &str, ordinal: u64, body: &String) -> (r: String)
    ensures
        r@ == spec_export_name(base@, ordinal as nat, body@),
{
    let mut r = base.to_owned();
    r.append("_anon_");
    let o = dec_string(ordinal);
    r.append(o.as_str());
    r.append("_");
    let h = stable_hash(body.as_str());
    r.append(h.as_str());
    r
}

/// Builds the dispatch string for an extracted entry point.
fn inline_dispatch(name: &String) -> (r: String)
    ensures
        r@ == spec_inline_dispatch(name@),
{
    let mut r = "Lithe.dispatch('".to_owned();
    r.append(name.as_str());
    r.append("')");
    r
}

/// Runs the extractor over the event bindings of one owning function,
/// named `base_name`. Ordinals are a pure function of the owner and of the
/// position among its inline handlers: they start at 1 and increment only
/// when an inline handler is extracted, so the output never depends on any
/// global counter.
pub fn extract_handlers(base_name: &str, bindings: Vec<Binding>) -> (r: (Vec<Binding>, Vec<
    EntryPoint>))
    ensures
        bindings_view(r.0@) == spec_extract(base_name@, bindings_view(bindings@), 0).0,
        entries_view(r.1@) == spec_extract(base_name@, bindings_view(bindings@), 0).1,
{
    let ghost views = bindings_view(bindings@);
    let ghost full = spec_extract(base_name@, views, 0);
    let mut out: Vec<Binding> = Vec::new();
    let mut eps: Vec<EntryPoint> = Vec::new();
    let mut count: usize = 0;
    let mut i: usize = 0;
    proof {
        assert(views.skip(0) =~= views);
        assert(bindings_view(out@) =~= Seq::<BindingV>::empty());
        assert(entries_view(eps@) =~= Seq::<EntryV>::empty());
        assert(Seq::<BindingV>::empty() + full.0 =~= full.0);
        assert(Seq::<EntryV>::empty() + full.1 =~= full.1);
    }
    while i < bindings.len()
        invariant
            i <= bindings@.len(),
            count <= i,
            views == bindings_view(bindings@),
            full == spec_extract(base_name@, views, 0),
            full.0 == bindings_view(out@) + spec_extract(
                base_name@,
                views.skip(i as int),
                count as nat,
            ).0,
            full.1 == entries_view(eps@) + spec_extract(
                base_name@,
                views.skip(i as int),
                count as nat,
            ).1,
        decreases bindings@.len() - i,
    {
        let ghost rem = views.skip(i as int);
        let ghost c = count as nat;
        proof {
            assert(rem[0] == views[i as int]);
            assert(views[i as int] == binding_view(bindings@[i as int]));
            assert(rem.drop_first() =~= views.skip(i + 1));
        }
        let b = &bindings[i];
        let ghost prev_out = out@;
        let ghost prev_eps = eps@;
        let is_click = str_is(&b.method, "on_click");
        let mut handled = false;
        if is_click && b.args.len() == 1 {
            proof {
                assert(arg_view(b.args@[0]) == rem[0].args[0]);
            }
            match &b.args[0] {
                HandlerArg::NamedRef(path) => {
                    proof {
                        assert(is_named_binding(rem[0]));
                    }
                    let arg = HandlerArg::Dispatch(named_dispatch(path));
                    let nb = Binding { method: b.method.clone(), args: vec![arg] };
                    proof {
                        assert(binding_view(nb).args =~= seq![
                            ArgV::Dispatch(spec_named_dispatch(rem[0].args[0]->NamedRef_0)),
                        ]);
                    }
                    out.push(nb);
                    handled = true;
                },
                HandlerArg::Inline(body) => {
                    proof {
                        assert(is_inline_binding(rem[0]));
                    }
                    let name = export_name(base_name, (count as u64) + 1, body);
                    let arg = HandlerArg::Dispatch(inline_dispatch(&name));
                    let nb = Binding { method: b.method.clone(), args: vec![arg] };
                    let ep = EntryPoint { export_name: name, body: body.clone() };
                    proof {
                        assert(binding_view(nb).args =~= seq![
                            ArgV::Dispatch(
                                spec_inline_dispatch(
                                    spec_export_name(base_name@, c + 1, rem[0].args[0]->Inline_0),
                                ),
                            ),
                        ]);
                    }
                    out.push(nb);
                    eps.push(ep);
                    count = count + 1;
                    handled = true;
                },
                _ => {},
            }
        }
        if !handled {
            proof {
                assert(!is_named_binding(rem[0]));
                assert(!is_inline_binding(rem[0]));
            }
            out.push(duplicate_binding(b));
        }
        proof {
            assert(bindings_view(out@) =~= bindings_view(prev_out).push(
                binding_view(out@.last()),
            ));
            let step = spec_extract(base_name@, rem, c);
            let next = spec_extract(base_name@, views.skip(i + 1), count as nat);
            assert(step.0 == seq![binding_view(out@.last())] + next.0);
            assert(bindings_view(prev_out) + step.0 =~= bindings_view(out@) + next.0);
            if eps@.len() > prev_eps.len() {
                assert(entries_view(eps@) =~= entries_view(prev_eps).push(
                    EntryV { export_name: eps@.last().export_name@, body: eps@.last().body@ },
                ));
                assert(step.1 == seq![entries_view(eps@).last()] + next.1);
            }
            assert(entries_view(prev_eps) + step.1 =~= entries_view(eps@) + next.1);
        }
        i = i + 1;
    }
    proof {
        assert(views.skip(views.len() as int) =~= Seq::<BindingV>::empty());
        assert(bindings_view(out@) + Seq::<BindingV>::empty() =~= bindings_view(out@));
        assert(entries_view(eps@) + Seq::<EntryV>::empty() =~= entries_view(eps@));
    }
    (out, eps)
}


/// Distinct ordinals force distinct export names, whatever the owning
/// function and whatever the two handler bodies — even structurally
/// identical bodies with identical content hashes. The ordinal's decimal
/// digits sit between `_` separators, so no shorter ordinal can pose as the
/// prefix of a longer one.
pub proof fn lemma_export_names_distinct(
    base: Seq<char>,
    o1: nat,
    o2: nat,
    b1: Seq<char>,
    b2: Seq<char>,
)
    requires
        o1 != o2,
    ensures
        spec_export_name(base, o1, b1) != spec_export_name(base, o2, b2),
{
    reveal_strlit("_");
    let p = base + "_anon_"@;
    let t1 = dec_rep(o1) + seq!['_'] + spec_stable_hash(b1);
    let t2 = dec_rep(o2) + seq!['_'] + spec_stable_hash(b2);
    assert("_"@ =~= seq!['_']);
    assert(spec_export_name(base, o1, b1) =~= p + t1);
    assert(spec_export_name(base, o2, b2) =~= p + t2);
    lemma_dec_sep_distinct(o1, o2, spec_stable_hash(b1), spec_stable_hash(b2));
    if spec_export_name(base, o1, b1) == spec_export_name(base, o2, b2) {
        assert((p + t1).len() == (p + t2).len());
        assert forall|j: int| 0 <= j < t1.len() implies t1[j] == t2[j] by {
            assert((p + t1)[p.len() + j] == t1[j]);
            assert((p + t2)[p.len() + j] == t2[j]);
        }
        assert(t1 =~= t2);
    }
}

/// The ordinal scheme read off the extraction: the `k`-th entry point
/// extracted for one owner (counting from zero, with `count` already
/// taken) is exported under ordinal `count + k + 1` and carries its own
/// body text.
pub proof fn lemma_extract_ordinals(base: Seq<char>, bs: Seq<BindingV>, count: nat, k: int)
    requires
        0 <= k < spec_extract(base, bs, count).1.len(),
    ensures
        spec_extract(base, bs, count).1[k].export_name == spec_export_name(
            base,
            (count + k + 1) as nat,
            spec_extract(base, bs, count).1[k].body,
        ),
    decreases bs.len(),
{
    if bs.len() > 0 {
        let b = bs[0];
        if is_inline_binding(b) {
            if k > 0 {
                lemma_extract_ordinals(base, bs.drop_first(), count + 1, k - 1);
            }
        } else {
            lemma_extract_ordinals(base, bs.drop_first(), count, k);
        }
    }
}

/// Handler naming uniqueness: within one owning function, no two extracted
/// entry points — not even two structurally identical inline handlers —
/// share an export name, because their ordinals differ.
pub proof fn lemma_handler_names_unique(base: Seq<char>, bs: Seq<BindingV>, k1: int, k2: int)
    requires
        0 <= k1 < spec_extract(base, bs, 0).1.len(),
        0 <= k2 < spec_extract(base, bs, 0).1.len(),
        k1 != k2,
    ensures
        spec_extract(base, bs, 0).1[k1].export_name != spec_extract(base, bs, 0).1[k2].export_name,
{
    lemma_extract_ordinals(base, bs, 0, k1);
    lemma_extract_ordinals(base, bs, 0, k2);
    lemma_export_names_distinct(
        base,
        (k1 + 1) as nat,
        (k2 + 1) as nat,
        spec_extract(base, bs, 0).1[k1].body,
        spec_extract(base, bs, 0).1[k2].body,
    );
}

/// Copies a binding; the copy has the same model.
fn duplicate_binding(b: &Binding) -> (r: Binding)
    ensures
        binding_view(r) == binding_view(*b),
{
    let mut args: Vec<HandlerArg> = Vec::new();
    let mut i: usize = 0;
    while i < b.args.len()
        invariant
            i <= b.args@.len(),
            args@.len() == i,
            forall|k: int| 0 <= k < i ==> arg_view(#[trigger] args@[k]) == arg_view(b.args@[k]),
        decreases b.args@.len() - i,
    {
        let a = match &b.args[i] {
            HandlerArg::NamedRef(s) => HandlerArg::NamedRef(s.clone()),
            HandlerArg::Inline(s) => HandlerArg::Inline(s.clone()),
            HandlerArg::Dispatch(s) => HandlerArg::Dispatch(s.clone()),
            HandlerArg::Opaque => HandlerArg::Opaque,
        };
        args.push(a);
        i = i + 1;
    }
    let r = Binding { method: b.method.clone(), args };
    proof {
        assert(binding_view(r).args =~= binding_view(*b).args);
    }
    r
}

} // verus!
