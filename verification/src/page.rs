//! Rendering a page to its served form. The component tree becomes its
//! HTML string, and when that string has a `</head>` close tag, the page's
//! runtime script — carrying the serialized dispatch table and the
//! `dispatch(name)` entry point — is spliced in before it.

use vstd::prelude::*;
use crate::html::render_to_string;
use crate::html::spec_render;
use crate::html::Component;

verus! {

/// Leftmost, non-overlapping replacement of `pat` by `rep`, scanning left
/// to right; the text itself when the pattern is empty or absent.
pub open spec fn spec_replace(s: Seq<char>, pat: Seq<char>, rep: Seq<char>) -> Seq<char>
    decreases s.len(),
{
    if pat.len() == 0 || s.len() < pat.len() {
        s
    } else if s.take(pat.len() as int) == pat {
        rep + spec_replace(s.skip(pat.len() as int), pat, rep)
    } else {
        seq![s[0]] + spec_replace(s.drop_first(), pat, rep)
    }
}

/// Whether `pat` stands at position `i` of `s`.
fn match_at(s: &str, pat: &str, i: usize, n: usize, m: usize) -> (r: bool)
    requires
        n == s@.len(),
        m == pat@.len(),
        i + m <= n,
    ensures
        r == (s@.subrange(i as int, i + m) == pat@),
{
    let mut j: usize = 0;
    while j < m
        invariant
            j <= m,
            n == s@.len(),
            m == pat@.len(),
            i + m <= n,
            forall|k: int| 0 <= k < j ==> s@[i + k] == pat@[k],
        decreases m - j,
    {
        if s.get_char(i + j) != pat.get_char(j) {
            proof {
                assert(s@.subrange(i as int, i + m)[j as int] == s@[i + j]);
            }
            return false;
        }
        j = j + 1;
    }
    proof {
        assert(s@.subrange(i as int, i + m) =~= pat@);
    }
    true
}

/// Replaces every occurrence of `pat` in `s` by `rep`, leftmost first,
/// without rescanning replaced text.
#[verifier::loop_isolation(false)]
pub fn replace_all(s: &str, pat: &str, rep: &str) -> (r: String)
    ensures
        r@ == spec_replace(s@, pat@, rep@),
{
    let n = s.unicode_len();
    let m = pat.unicode_len();
    if m == 0 {
        return s.to_owned();
    }
    let mut out = String::new();
    let mut i: usize = 0;
    proof {
        assert(s@.skip(0) =~= s@);
        assert(Seq::<char>::empty() + spec_replace(s@, pat@, rep@) =~= spec_replace(
            s@,
            pat@,
            rep@,
        ));
    }
    while i < n
        invariant
            i <= n,
            m >= 1,
            n == s@.len(),
            m == pat@.len(),
            spec_replace(s@, pat@, rep@) == out@ + spec_replace(s@.skip(i as int), pat@, rep@),
        decreases n - i,
    {
        let ghost rem = s@.skip(i as int);
        if m <= n - i && match_at(s, pat, i, n, m) {
            out.append(rep);
            proof {
                assert(rem.take(m as int) =~= s@.subrange(i as int, i + m));
                assert(rem.skip(m as int) =~= s@.skip(i + m));
            }
            i = i + m;
        } else {
            let one = s.substring_char(i, i + 1);
            out.append(one);
            proof {
                assert(one@ =~= seq![rem[0]]);
                if i + m <= n {
                    assert(rem.take(m as int) =~= s@.subrange(i as int, i + m));
                }
                assert(rem.drop_first() =~= s@.skip(i + 1));
            }
            i = i + 1;
        }
    }
    proof {
        assert(s@.skip(n as int) =~= Seq::<char>::empty());
    }
    out
}

/// The opening of the page script, before the serialized dispatch table.
pub open spec fn script_head() -> Seq<char> {
    "    <script type=\"module\">\n                window.Lithe = {\n                    id_map: "@
}

/// The middle of the page script: the dispatch entry point, between the
/// serialized table and the client artifact's name.
pub open spec fn script_mid() -> Seq<char> {
    ",\n                    dispatch: (name) => {\n                        if (!window.wasm_module) {\n                            console.warn('WASM module not initialized');\n                            return;\n                        }\n                        const mapped = window.Lithe.id_map[name] || name;\n                        if (window.wasm_module[mapped]) {\n                            window.wasm_module[mapped]();\n                            return;\n                        }\n                        const suffix = '_' + name;\n                        for (const key of Object.keys(window.wasm_module)) {\n                            if (key.endsWith(suffix) || key === mapped) {\n                                window.wasm_module[key]();\n                                return;\n                            }\n                        }\n                        console.warn('WASM function not found:', name, ' (mapped to ' + mapped + ')');\n                    }\n                };\n                import init, * as exports from '/public/pkg/"@
}

/// The tail of the page script, after the client artifact's name.
pub open spec fn script_tail() -> Seq<char> {
    ".js';\n                (async () => {\n                    await init();\n                    window.wasm_module = exports;\n                })();\n            </script>"@
}

/// The whole page script for one client artifact and one serialized table.
pub open spec fn spec_page_script(app_name: Seq<char>, id_map_json: Seq<char>) -> Seq<char> {
    script_head() + id_map_json + script_mid() + app_name + script_tail()
}

/// Builds the page script.
fn page_script(app_name: &str, id_map_json: &str) -> (r: String)
    ensures
        r@ == spec_page_script(app_name@, id_map_json@),
{
    let mut r =
        "    <script type=\"module\">\n                window.Lithe = {\n                    id_map: ".to_owned();
    r.append(id_map_json);
    r.append(
        ",\n                    dispatch: (name) => {\n                        if (!window.wasm_module) {\n                            console.warn('WASM module not initialized');\n                            return;\n                        }\n                        const mapped = window.Lithe.id_map[name] || name;\n                        if (window.wasm_module[mapped]) {\n                            window.wasm_module[mapped]();\n                            return;\n                        }\n                        const suffix = '_' + name;\n                        for (const key of Object.keys(window.wasm_module)) {\n                            if (key.endsWith(suffix) || key === mapped) {\n                                window.wasm_module[key]();\n                                return;\n                            }\n                        }\n                        console.warn('WASM function not found:', name, ' (mapped to ' + mapped + ')');\n                    }\n                };\n                import init, * as exports from '/public/pkg/",
    );
    r.append(app_name);
    r.append(
        ".js';\n                (async () => {\n                    await init();\n                    window.wasm_module = exports;\n                })();\n            </script>",
    );
    r
}

/// Renders a page component to its served HTML: the tree's rendering, with
/// the runtime script — carrying the serialized dispatch table — spliced in
/// before the `</head>` close tag when the page has a head.
pub fn render_page<C: Component>(comp: C, app_name: &str, id_map_json: &str) -> (r: String)
    ensures
        r@ == spec_replace(
            spec_render(comp.component_view()),
            "</head>"@,
            spec_page_script(app_name@, id_map_json@) + "\n</head>"@,
        ),
{
    let s = render_to_string(&comp);
    let mut script = page_script(app_name, id_map_json);
    script.append("\n</head>");
    replace_all(s.as_str(), "</head>", script.as_str())
}

} // verus!
