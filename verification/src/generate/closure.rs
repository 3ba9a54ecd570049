//! The front end accepts what the emitter writes.
//!
//! For a document whose words are each lexed as one token, the text of the
//! generated module lexes, reads and lowers, and the module answers the
//! document (`lemma_emit_closure`).

use vstd::prelude::*;
use crate::ast::{ModuleView, FnDefView};
use crate::diagnostics::DiagnosticView;
use crate::fitting::{fits, lemma_fits_atom, lemma_fits_list};
use crate::generate::lowered::{headed, lemma_headed, lemma_type_lowers};
use crate::generate::lowered_fns::{lemma_fn_lowers, lemma_prov_lowers};
use crate::generate::pct_emitter::{slug, store_name, created, emit_spec};
use crate::generate::segments::{header_inner, read_set_run, write_set_run, respond_set_run};
use crate::generate::spec_ast::{SpecDocView, DomainTypeView};
use crate::generate::written::{type_items, types_run, sets_run, ei1, ei2, doc_reads, doc_writes};
use crate::generate::written_doc::{plain_doc, doc_items, doc_form, doc_total, fn_items, fns_run,
    lemma_doc_written};
use crate::layout::{sym, quoted};
use crate::lexer::{lex};
use crate::lower::{kw_of, head_of, span_of, module_items, module_keyword_step, module_form_step,
    lower_module_spec, module_forms_spec, lower_type_def_spec, lower_effect_set_spec, lower_fn_spec, ModuleOutcome};
use crate::parser::{parse, AtomView, SExprView};
use crate::pipeline::{front_end_spec, answers, all_flagged};
use crate::reading::{Form, lemma_reads_form};

verus! {

/// The keywords and heads of a module differ from one another.
proof fn lemma_module_words()
    ensures
        "version"@ != "provenance"@,
        "effect-set"@ != "type"@,
        "fn"@ != "type"@,
        "fn"@ != "effect-set"@,
{
    reveal_strlit("version");
    reveal_strlit("provenance");
    reveal_strlit("effect-set");
    reveal_strlit("type");
    reveal_strlit("fn");
    assert("version"@.len() == 7);
    assert("provenance"@.len() == 10);
    assert("effect-set"@.len() == 10);
    assert("type"@.len() == 4);
    assert("fn"@.len() == 2);
}

// ---------------------------------------------------------------------------
// The items of the module form, one by one
// ---------------------------------------------------------------------------

/// What the forms of the types are, one by one.
proof fn lemma_types_elems(a: Seq<Form>, types: Seq<DomainTypeView>, i: int, store: Seq<char>)
    requires
        0 <= i <= types.len(),
    ensures
        types_run(a, types, i, store).len() == a.len() + types.len() - i,
        forall|k: int| 0 <= k < a.len() ==> types_run(a, types, i, store)[k] == a[k],
        forall|j: int|
            i <= j < types.len() ==> #[trigger] types_run(a, types, i, store)[a.len() + j - i]
                == Form::List(type_items(types[j], store)),
    decreases types.len() - i,
{
    if i < types.len() {
        let next = a.push(Form::List(type_items(types[i], store)));
        lemma_types_elems(next, types, i + 1, store);
        let all = types_run(a, types, i, store);
        assert(all == types_run(next, types, i + 1, store));
        assert forall|k: int| 0 <= k < a.len() implies all[k] == a[k] by {
            assert(next[k] == a[k]);
        }
        assert forall|j: int| i <= j < types.len() implies #[trigger] all[a.len() + j - i]
            == Form::List(type_items(types[j], store)) by {
            if j == i {
                assert(all[a.len() as int] == next[a.len() as int]);
            } else {
                assert(all[next.len() + j - (i + 1)] == Form::List(type_items(types[j], store)));
            }
        }
    }
}

/// What the forms of the functions are, one by one.
proof fn lemma_fns_elems(a: Seq<Form>, d: SpecDocView, i: int, total: bool)
    requires
        0 <= i <= d.endpoints.len(),
    ensures
        fns_run(a, d, i, total).len() == a.len() + d.endpoints.len() - i,
        forall|k: int| 0 <= k < a.len() ==> fns_run(a, d, i, total)[k] == a[k],
        forall|j: int|
            i <= j < d.endpoints.len() ==> #[trigger] fns_run(a, d, i, total)[a.len() + j - i]
                == Form::List(fn_items(d.endpoints[j], d, total)),
    decreases d.endpoints.len() - i,
{
    if i < d.endpoints.len() {
        let next = a.push(Form::List(fn_items(d.endpoints[i], d, total)));
        lemma_fns_elems(next, d, i + 1, total);
        let all = fns_run(a, d, i, total);
        assert(all == fns_run(next, d, i + 1, total));
        assert forall|k: int| 0 <= k < a.len() implies all[k] == a[k] by {
            assert(next[k] == a[k]);
        }
        assert forall|j: int| i <= j < d.endpoints.len() implies #[trigger] all[a.len() + j - i]
            == Form::List(fn_items(d.endpoints[j], d, total)) by {
            if j == i {
                assert(all[a.len() as int] == next[a.len() as int]);
            } else {
                assert(all[next.len() + j - (i + 1)] == Form::List(
                    fn_items(d.endpoints[j], d, total),
                ));
            }
        }
    }
}

/// Whether a form is the form of an effect set: a list that starts with
/// `effect-set` and a name.
pub open spec fn set_form(f: Form) -> bool {
    headed(f, "effect-set"@) && f->List_0.len() > 1 && f->List_0[1] is Atom
        && f->List_0[1]->Atom_0 is Symbol
}

/// The number of effect sets of a document.
pub open spec fn set_count(d: SpecDocView) -> int {
    (if doc_reads(d) {
        1int
    } else {
        0int
    }) + (if doc_writes(d) {
        1int
    } else {
        0int
    }) + (if doc_reads(d) || doc_writes(d) {
        1int
    } else {
        0int
    })
}

/// What the forms of the effect sets are.
proof fn lemma_sets_elems(a: Seq<Form>, d: SpecDocView)
    ensures
        sets_run(a, d).len() == a.len() + set_count(d),
        forall|k: int| 0 <= k < a.len() ==> sets_run(a, d)[k] == a[k],
        forall|k: int| a.len() <= k < sets_run(a, d).len() ==> set_form(#[trigger] sets_run(a, d)[k]),
{
    let r1 = ei1(a, d);
    let r2 = ei2(a, d);
    let r3 = sets_run(a, d);
    let store = store_name(d);
    let n = a.len() as int;
    if doc_reads(d) {
        assert(r1 == read_set_run(a, store));
        assert(set_form(r1[n]));
    }
    assert forall|k: int| 0 <= k < a.len() implies r1[k] == a[k] by {}
    assert forall|k: int| a.len() <= k < r1.len() implies set_form(#[trigger] r1[k]) by {}
    if doc_writes(d) {
        assert(r2 == write_set_run(r1, store));
        assert(set_form(r2[r1.len() as int]));
    }
    assert forall|k: int| 0 <= k < a.len() implies r2[k] == a[k] by {
        assert(r2[k] == r1[k]);
    }
    assert forall|k: int| a.len() <= k < r2.len() implies set_form(#[trigger] r2[k]) by {
        if k < r1.len() {
            assert(r2[k] == r1[k]);
        }
    }
    if doc_reads(d) || doc_writes(d) {
        assert(r3 == respond_set_run(r2));
        assert(set_form(r3[r2.len() as int]));
    }
    assert forall|k: int| 0 <= k < a.len() implies r3[k] == a[k] by {
        assert(r3[k] == r2[k]);
    }
    assert forall|k: int| a.len() <= k < r3.len() implies set_form(#[trigger] r3[k]) by {
        if k < r2.len() {
            assert(r3[k] == r2[k]);
        }
    }
}

/// A tree that fits the form of an effect set lowers to an effect set.
proof fn lemma_set_lowers(e: SExprView, f: Form)
    requires
        fits(e, f),
        set_form(f),
    ensures
        lower_effect_set_spec(e) is Ok,
        head_of(e) == Some("effect-set"@),
        kw_of(e) is None,
{
    lemma_headed(e, f, "effect-set"@);
    lemma_fits_list(e, f->List_0);
    lemma_fits_atom(e.kind->List_0[1], f->List_0[1]->Atom_0);
}

// ---------------------------------------------------------------------------
// Lowering the items of a module
// ---------------------------------------------------------------------------

/// Lowering a run of types goes on behind them, with one type more for each.
proof fn lemma_types_block(
    items: Seq<SExprView>,
    start: int,
    n: int,
    acc: ModuleView,
    w: Seq<DiagnosticView>,
    names: Seq<Seq<char>>,
    first: int,
) -> (next: ModuleView)
    requires
        0 <= start,
        0 <= n,
        start + n <= items.len(),
        0 <= first,
        first + n <= names.len(),
        forall|j: int|
            start <= j < start + n ==> kw_of(#[trigger] items[j]) is None && head_of(items[j])
                == Some("type"@) && lower_type_def_spec(items[j]) is Ok && lower_type_def_spec(
                items[j],
            )->Ok_0.name == names[first + j - start],
    ensures
        module_items(items, start, acc, w) == module_items(items, start + n, next, w),
        next.name == acc.name,
        next.types.len() == acc.types.len() + n,
        next.functions == acc.functions,
        forall|k: int| 0 <= k < acc.types.len() ==> #[trigger] next.types[k] == acc.types[k],
        forall|t: int|
            0 <= t < n ==> (#[trigger] next.types[acc.types.len() + t]).name == names[first + t],
    decreases n,
{
    if n == 0 {
        acc
    } else {
        assert(kw_of(items[start]) is None && head_of(items[start]) == Some("type"@)
            && lower_type_def_spec(items[start]) is Ok && lower_type_def_spec(
            items[start],
        )->Ok_0.name == names[first + start - start]);
        let t = lower_type_def_spec(items[start])->Ok_0;
        let mid = ModuleView { types: acc.types.push(t), ..acc };
        assert(module_form_step("type"@, items[start], acc) == Ok::<ModuleView, Seq<char>>(mid));
        assert forall|j: int| start + 1 <= j < start + 1 + (n - 1) implies kw_of(
            #[trigger] items[j],
        ) is None && head_of(items[j]) == Some("type"@) && lower_type_def_spec(items[j]) is Ok
            && lower_type_def_spec(items[j])->Ok_0.name == names[first + 1 + j - (start + 1)] by {
            assert(first + 1 + j - (start + 1) == first + j - start);
        }
        let next = lemma_types_block(items, start + 1, n - 1, mid, w, names, first + 1);
        assert forall|k: int| 0 <= k < acc.types.len() implies #[trigger] next.types[k]
            == acc.types[k] by {
            assert(next.types[k] == mid.types[k]);
        }
        assert forall|t2: int| 0 <= t2 < n implies (#[trigger] next.types[acc.types.len() + t2]).name
            == names[first + t2] by {
            if t2 == 0 {
                assert(next.types[acc.types.len() as int] == mid.types[acc.types.len() as int]);
            } else {
                assert(next.types[mid.types.len() + (t2 - 1)].name == names[first + 1 + (t2 - 1)]);
            }
        }
        next
    }
}

/// Lowering a run of effect sets goes on behind them.
proof fn lemma_sets_block(
    items: Seq<SExprView>,
    start: int,
    n: int,
    acc: ModuleView,
    w: Seq<DiagnosticView>,
) -> (next: ModuleView)
    requires
        0 <= start,
        0 <= n,
        start + n <= items.len(),
        forall|j: int|
            start <= j < start + n ==> kw_of(#[trigger] items[j]) is None && head_of(items[j])
                == Some("effect-set"@) && lower_effect_set_spec(items[j]) is Ok,
    ensures
        module_items(items, start, acc, w) == module_items(items, start + n, next, w),
        next.name == acc.name,
        next.types == acc.types,
        next.functions == acc.functions,
    decreases n,
{
    lemma_module_words();
    if n == 0 {
        acc
    } else {
        assert(kw_of(items[start]) is None && head_of(items[start]) == Some("effect-set"@)
            && lower_effect_set_spec(items[start]) is Ok);
        let s = lower_effect_set_spec(items[start])->Ok_0;
        let mid = ModuleView { effect_sets: acc.effect_sets.push(s), ..acc };
        assert(module_form_step("effect-set"@, items[start], acc) == Ok::<ModuleView, Seq<char>>(
            mid,
        ));
        lemma_sets_block(items, start + 1, n - 1, mid, w)
    }
}

proof fn lemma_flagged_push(fns: Seq<FnDefView>, f: FnDefView, total: bool)
    requires
        all_flagged(fns, total, fns.len() as int),
        f.total == total,
    ensures
        all_flagged(fns.push(f), total, fns.len() as int + 1),
{
    let next = fns.push(f);
    lemma_flagged_same(fns, next, total, fns.len() as int);
    assert(next[fns.len() as int] == f);
}

proof fn lemma_flagged_same(a: Seq<FnDefView>, b: Seq<FnDefView>, total: bool, n: int)
    requires
        0 <= n <= a.len(),
        a.len() <= b.len(),
        forall|k: int| 0 <= k < n ==> #[trigger] b[k] == a[k],
        all_flagged(a, total, n),
    ensures
        all_flagged(b, total, n),
    decreases n,
{
    if n > 0 {
        assert(b[n - 1] == a[n - 1]);
        lemma_flagged_same(a, b, total, n - 1);
    }
}

/// Lowering a run of functions goes on behind them, with one function more
/// for each, which is total where `total` is set.
proof fn lemma_fns_block(
    items: Seq<SExprView>,
    start: int,
    n: int,
    acc: ModuleView,
    w: Seq<DiagnosticView>,
    total: bool,
    names: Seq<Seq<char>>,
    first: int,
) -> (next: ModuleView)
    requires
        0 <= start,
        0 <= n,
        start + n <= items.len(),
        0 <= first,
        first + n <= names.len(),
        forall|j: int|
            start <= j < start + n ==> kw_of(#[trigger] items[j]) is None && head_of(items[j])
                == Some("fn"@) && lower_fn_spec(items[j]) is Ok && lower_fn_spec(
                items[j],
            )->Ok_0.total == total && lower_fn_spec(items[j])->Ok_0.name == names[first + j
                - start],
        all_flagged(acc.functions, total, acc.functions.len() as int),
    ensures
        module_items(items, start, acc, w) == module_items(items, start + n, next, w),
        next.name == acc.name,
        next.types == acc.types,
        next.functions.len() == acc.functions.len() + n,
        all_flagged(next.functions, total, next.functions.len() as int),
        forall|k: int|
            0 <= k < acc.functions.len() ==> #[trigger] next.functions[k] == acc.functions[k],
        forall|t: int|
            0 <= t < n ==> (#[trigger] next.functions[acc.functions.len() + t]).name == names[first
                + t],
    decreases n,
{
    lemma_module_words();
    if n == 0 {
        acc
    } else {
        assert(kw_of(items[start]) is None && head_of(items[start]) == Some("fn"@) && lower_fn_spec(
            items[start],
        ) is Ok && lower_fn_spec(items[start])->Ok_0.total == total && lower_fn_spec(
            items[start],
        )->Ok_0.name == names[first + start - start]);
        let f = lower_fn_spec(items[start])->Ok_0;
        let mid = ModuleView { functions: acc.functions.push(f), ..acc };
        assert(module_form_step("fn"@, items[start], acc) == Ok::<ModuleView, Seq<char>>(mid));
        lemma_flagged_push(acc.functions, f, total);
        assert forall|j: int| start + 1 <= j < start + 1 + (n - 1) implies kw_of(
            #[trigger] items[j],
        ) is None && head_of(items[j]) == Some("fn"@) && lower_fn_spec(items[j]) is Ok
            && lower_fn_spec(items[j])->Ok_0.total == total && lower_fn_spec(items[j])->Ok_0.name
            == names[first + 1 + j - (start + 1)] by {
            assert(first + 1 + j - (start + 1) == first + j - start);
        }
        let next = lemma_fns_block(items, start + 1, n - 1, mid, w, total, names, first + 1);
        assert forall|k: int| 0 <= k < acc.functions.len() implies #[trigger] next.functions[k]
            == acc.functions[k] by {
            assert(next.functions[k] == mid.functions[k]);
        }
        assert forall|t2: int| 0 <= t2 < n implies (#[trigger] next.functions[acc.functions.len()
            + t2]).name == names[first + t2] by {
            if t2 == 0 {
                assert(next.functions[acc.functions.len() as int] == mid.functions[
                    acc.functions.len() as int
                ]);
            } else {
                assert(next.functions[mid.functions.len() + (t2 - 1)].name == names[first + 1 + (t2
                    - 1)]);
            }
        }
        next
    }
}

/// A tree that fits the module form of a document lowers to a module that
/// answers the document.
pub proof fn lemma_doc_lowers(e: SExprView, d: SpecDocView)
    requires
        fits(e, doc_form(d)),
    ensures
        lower_module_spec(e).result matches Ok(m) && answers(d, m),
{
    lemma_module_words();
    let fs = doc_items(d);
    let total = doc_total(d);
    let store = store_name(d);
    let name = slug(d.title);
    let head = header_inner(name, d.spec_id);
    let r1 = types_run(head, d.domain_types, 0, store);
    let r2 = sets_run(r1, d);
    let nt = d.domain_types.len() as int;
    let ns = set_count(d);
    let nf = d.endpoints.len() as int;
    lemma_types_elems(head, d.domain_types, 0, store);
    lemma_sets_elems(r1, d);
    lemma_fns_elems(r2, d, 0, total);
    lemma_fits_list(e, fs);
    let items = e.kind->List_0;
    assert(head.len() == 6);
    assert forall|k: int| 0 <= k < 6 implies fs[k] == head[k] by {
        assert(r1[k] == head[k]);
        assert(r2[k] == r1[k]);
        assert(fs[k] == r2[k]);
    }
    // the head of the module
    lemma_fits_atom(items[0], AtomView::Symbol("module"@));
    lemma_fits_atom(items[1], AtomView::Symbol(name));
    lemma_fits_atom(items[2], AtomView::Keyword("provenance"@));
    lemma_fits_atom(items[4], AtomView::Keyword("version"@));
    let prov = Seq::<(Form, Form)>::empty().push((sym("req"@), quoted(d.spec_id))).push(
        (sym("author"@), quoted("agent:pact-generate"@)),
    ).push((sym("created"@), quoted(created())));
    assert(head[3] == Form::Record(prov));
    assert(prov[0] == (sym("req"@), quoted(d.spec_id)));
    assert(prov[1] == (sym("author"@), quoted("agent:pact-generate"@)));
    assert(prov[2] == (sym("created"@), quoted(created())));
    lemma_prov_lowers(items[3], prov);
    let w = Seq::<DiagnosticView>::empty();
    let a0 = ModuleView {
        name,
        provenance: None,
        version: None,
        parent_version: None,
        delta: None,
        types: Seq::empty(),
        effect_sets: Seq::empty(),
        functions: Seq::empty(),
        extra_meta: Seq::empty(),
        span: span_of(e),
    };
    let a1 = module_keyword_step("provenance"@, items[3], a0)->Ok_0;
    let a2 = module_keyword_step("version"@, items[5], a1)->Ok_0;
    assert(module_items(items, 2, a0, w) == module_items(items, 4, a1, w));
    assert(module_items(items, 4, a1, w) == module_items(items, 6, a2, w));
    // the types
    let tnames = Seq::new(d.domain_types.len(), |i: int| d.domain_types[i].name);
    let fnames = Seq::new(d.endpoints.len(), |i: int| d.endpoints[i].name);
    assert forall|j: int| 6 <= j < 6 + nt implies kw_of(#[trigger] items[j]) is None && head_of(
        items[j],
    ) == Some("type"@) && lower_type_def_spec(items[j]) is Ok && lower_type_def_spec(
        items[j],
    )->Ok_0.name == tnames[0 + j - 6] by {
        let k = j - 6;
        assert(r1[6 + k - 0] == Form::List(type_items(d.domain_types[k], store)));
        assert(r2[j] == r1[j]);
        assert(fs[j] == r2[j]);
        lemma_type_lowers(items[j], d.domain_types[k], store);
    }
    let a3 = lemma_types_block(items, 6, nt, a2, w, tnames, 0);
    // the effect sets
    assert forall|j: int| 6 + nt <= j < 6 + nt + ns implies kw_of(#[trigger] items[j]) is None
        && head_of(items[j]) == Some("effect-set"@) && lower_effect_set_spec(items[j]) is Ok by {
        assert(set_form(r2[j]));
        assert(fs[j] == r2[j]);
        lemma_set_lowers(items[j], fs[j]);
    }
    let a4 = lemma_sets_block(items, 6 + nt, ns, a3, w);
    // the functions
    let base = 6 + nt + ns;
    assert forall|j: int| base <= j < base + nf implies kw_of(#[trigger] items[j]) is None
        && head_of(items[j]) == Some("fn"@) && lower_fn_spec(items[j]) is Ok && lower_fn_spec(
        items[j],
    )->Ok_0.total == total && lower_fn_spec(items[j])->Ok_0.name == fnames[0 + j - base] by {
        let k = j - base;
        assert(fs[r2.len() + k - 0] == Form::List(fn_items(d.endpoints[k], d, total)));
        lemma_fn_lowers(items[j], d.endpoints[k], d, total);
    }
    let a5 = lemma_fns_block(items, base, nf, a4, w, total, fnames, 0);
    assert forall|i: int| 0 <= i < a5.types.len() && i < d.domain_types.len() implies (
    #[trigger] a5.types[i]).name == d.domain_types[i].name by {
        assert(a3.types[a2.types.len() + i].name == tnames[0 + i]);
    }
    assert forall|i: int| 0 <= i < a5.functions.len() && i < d.endpoints.len() implies (
    #[trigger] a5.functions[i]).name == d.endpoints[i].name by {
        assert(a5.functions[a4.functions.len() + i].name == fnames[0 + i]);
    }
    assert(module_items(items, base + nf, a5, w) == (ModuleOutcome {
        result: Ok::<ModuleView, Seq<char>>(a5),
        warnings: w,
    }));
    assert(module_forms_spec(e) == module_items(items, 2, a0, w));
}

/// Closure of the front end over generated text: for a document whose
/// words are each lexed as one token, the text of the generated module
/// lexes, reads and lowers, and the module has the slug of the title as its
/// name, one type for each domain type and one function for each endpoint,
/// under the same names and in the same order, and functions that are
/// total exactly where the document asks for it.
pub proof fn lemma_emit_closure(d: SpecDocView)
    requires
        plain_doc(d),
    ensures
        front_end_spec(emit_spec(d)) matches Ok(out) && answers(d, out.0),
{
    let src = emit_spec(d);
    lemma_doc_written(d);
    lemma_reads_form(src, doc_form(d));
    let toks = lex(src)->Tokens_0;
    let exprs = parse(toks)->Program_0;
    lemma_doc_lowers(exprs[0], d);
}

} // verus!
