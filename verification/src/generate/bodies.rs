//! Lowering the expressions that generated text holds.

use vstd::prelude::*;
use crate::fitting::{fits, expr_ok, pattern_ok, special_head, lemma_fits_atom, lemma_fits_list,
    lemma_fits_vector, lemma_fits_map, lemma_atom_ok, lemma_call_ok, lemma_ok_form, lemma_err_form,
    lemma_access_ok, lemma_if_ok, lemma_let_ok, lemma_match_ok, lemma_map_ok, lemma_pattern_atom,
    lemma_pattern_ctor};
use crate::layout::{sym, kw, plain_map};
use crate::lower::{sym_of, name_of, head_of};
use crate::parser::{AtomView, SExprView};
use crate::reading::Form;

verus! {

proof fn head_hash()
    ensures
        !special_head("hash"@),
        "hash"@ != "param"@,
        "hash"@ != "returns"@,
{
    let w = "hash"@;
    reveal_strlit("hash");
    reveal_strlit("let");
    assert(w.len() != "let"@.len());
    reveal_strlit("match");
    assert(w.len() != "match"@.len());
    reveal_strlit("if");
    assert(w.len() != "if"@.len());
    reveal_strlit(".");
    assert(w.len() != "."@.len());
    reveal_strlit("ok");
    assert(w.len() != "ok"@.len());
    reveal_strlit("err");
    assert(w.len() != "err"@.len());
    reveal_strlit("param");
    assert(w.len() != "param"@.len());
    reveal_strlit("returns");
    assert(w.len() != "returns"@.len());
}

proof fn head_validate_uuid()
    ensures
        !special_head("validate-uuid"@),
        "validate-uuid"@ != "param"@,
        "validate-uuid"@ != "returns"@,
{
    let w = "validate-uuid"@;
    reveal_strlit("validate-uuid");
    reveal_strlit("let");
    assert(w.len() != "let"@.len());
    reveal_strlit("match");
    assert(w.len() != "match"@.len());
    reveal_strlit("if");
    assert(w.len() != "if"@.len());
    reveal_strlit(".");
    assert(w.len() != "."@.len());
    reveal_strlit("ok");
    assert(w.len() != "ok"@.len());
    reveal_strlit("err");
    assert(w.len() != "err"@.len());
    reveal_strlit("param");
    assert(w.len() != "param"@.len());
    reveal_strlit("returns");
    assert(w.len() != "returns"@.len());
}

proof fn head_query()
    ensures
        !special_head("query"@),
        "query"@ != "param"@,
        "query"@ != "returns"@,
{
    let w = "query"@;
    reveal_strlit("query");
    reveal_strlit("let");
    assert(w.len() != "let"@.len());
    reveal_strlit("match");
    assert(w[0] != "match"@[0]);
    reveal_strlit("if");
    assert(w.len() != "if"@.len());
    reveal_strlit(".");
    assert(w.len() != "."@.len());
    reveal_strlit("ok");
    assert(w.len() != "ok"@.len());
    reveal_strlit("err");
    assert(w.len() != "err"@.len());
    reveal_strlit("param");
    assert(w[0] != "param"@[0]);
    reveal_strlit("returns");
    assert(w.len() != "returns"@.len());
}

proof fn head_validate_against()
    ensures
        !special_head("validate-against"@),
        "validate-against"@ != "param"@,
        "validate-against"@ != "returns"@,
{
    let w = "validate-against"@;
    reveal_strlit("validate-against");
    reveal_strlit("let");
    assert(w.len() != "let"@.len());
    reveal_strlit("match");
    assert(w.len() != "match"@.len());
    reveal_strlit("if");
    assert(w.len() != "if"@.len());
    reveal_strlit(".");
    assert(w.len() != "."@.len());
    reveal_strlit("ok");
    assert(w.len() != "ok"@.len());
    reveal_strlit("err");
    assert(w.len() != "err"@.len());
    reveal_strlit("param");
    assert(w.len() != "param"@.len());
    reveal_strlit("returns");
    assert(w.len() != "returns"@.len());
}

proof fn head_non_empty()
    ensures
        !special_head("non-empty?"@),
        "non-empty?"@ != "param"@,
        "non-empty?"@ != "returns"@,
{
    let w = "non-empty?"@;
    reveal_strlit("non-empty?");
    reveal_strlit("let");
    assert(w.len() != "let"@.len());
    reveal_strlit("match");
    assert(w.len() != "match"@.len());
    reveal_strlit("if");
    assert(w.len() != "if"@.len());
    reveal_strlit(".");
    assert(w.len() != "."@.len());
    reveal_strlit("ok");
    assert(w.len() != "ok"@.len());
    reveal_strlit("err");
    assert(w.len() != "err"@.len());
    reveal_strlit("param");
    assert(w.len() != "param"@.len());
    reveal_strlit("returns");
    assert(w.len() != "returns"@.len());
}

proof fn head_insert()
    ensures
        !special_head("insert!"@),
        "insert!"@ != "param"@,
        "insert!"@ != "returns"@,
{
    let w = "insert!"@;
    reveal_strlit("insert!");
    reveal_strlit("let");
    assert(w.len() != "let"@.len());
    reveal_strlit("match");
    assert(w.len() != "match"@.len());
    reveal_strlit("if");
    assert(w.len() != "if"@.len());
    reveal_strlit(".");
    assert(w.len() != "."@.len());
    reveal_strlit("ok");
    assert(w.len() != "ok"@.len());
    reveal_strlit("err");
    assert(w.len() != "err"@.len());
    reveal_strlit("param");
    assert(w.len() != "param"@.len());
    reveal_strlit("returns");
    assert(w[0] != "returns"@[0]);
}

proof fn head_build()
    ensures
        !special_head("build"@),
        "build"@ != "param"@,
        "build"@ != "returns"@,
{
    let w = "build"@;
    reveal_strlit("build");
    reveal_strlit("let");
    assert(w.len() != "let"@.len());
    reveal_strlit("match");
    assert(w[0] != "match"@[0]);
    reveal_strlit("if");
    assert(w.len() != "if"@.len());
    reveal_strlit(".");
    assert(w.len() != "."@.len());
    reveal_strlit("ok");
    assert(w.len() != "ok"@.len());
    reveal_strlit("err");
    assert(w.len() != "err"@.len());
    reveal_strlit("param");
    assert(w[0] != "param"@[0]);
    reveal_strlit("returns");
    assert(w.len() != "returns"@.len());
}

proof fn idempotency_part2(e: SExprView, field: Seq<char>)
    requires
        fits(
            e,
            Form::List(Seq::<Form>::empty().push(sym("."@)).push(sym("input"@)).push(sym(field))),
        ),
    ensures
        expr_ok(e),
{
    lemma_fits_list(e, Seq::<Form>::empty().push(sym("."@)).push(sym("input"@)).push(sym(field)));
    let items = e.kind->List_0;
    lemma_fits_atom(items[0], AtomView::Symbol("."@));
    lemma_fits_atom(items[1], AtomView::Symbol("input"@));
    lemma_atom_ok(items[1], AtomView::Symbol("input"@));
    lemma_fits_atom(items[2], AtomView::Symbol(field));
    lemma_access_ok(e);
}

proof fn idempotency_part1(e: SExprView, field: Seq<char>)
    requires
        fits(
            e,
            Form::List(
                Seq::<Form>::empty()
                    .push(sym("hash"@))
                    .push(
                        Form::List(
                            Seq::<Form>::empty()
                                .push(sym("."@))
                                .push(sym("input"@))
                                .push(sym(field)),
                        ),
                    ),
            ),
        ),
    ensures
        expr_ok(e),
{
    lemma_fits_list(
        e,
        Seq::<Form>::empty()
            .push(sym("hash"@))
            .push(
                Form::List(
                    Seq::<Form>::empty().push(sym("."@)).push(sym("input"@)).push(sym(field)),
                ),
            ),
    );
    let items = e.kind->List_0;
    lemma_fits_atom(items[0], AtomView::Symbol("hash"@));
    head_hash();
    assert forall|k: int| 1 <= k < items.len() implies expr_ok(#[trigger] items[k]) by {
        if k == 1 {
            idempotency_part2(items[1], field);
        }
    }
    lemma_call_ok(e, "hash"@);
}

/// A tree that fits the form of an idempotency key lowers as an expression.
pub proof fn idempotency_lowers(e: SExprView, field: Seq<char>)
    requires
        fits(
            e,
            Form::List(
                Seq::<Form>::empty()
                    .push(sym("hash"@))
                    .push(
                        Form::List(
                            Seq::<Form>::empty()
                                .push(sym("."@))
                                .push(sym("input"@))
                                .push(sym(field)),
                        ),
                    ),
            ),
        ),
    ensures
        expr_ok(e),
        head_of(e) == Some("hash"@),
{
    idempotency_part1(e, field);
    lemma_fits_list(
        e,
        Seq::<Form>::empty()
            .push(sym("hash"@))
            .push(
                Form::List(
                    Seq::<Form>::empty().push(sym("."@)).push(sym("input"@)).push(sym(field)),
                ),
            ),
    );
    lemma_fits_atom(e.kind->List_0[0], AtomView::Symbol("hash"@));
}

proof fn read_body_part2(e: SExprView, store: Seq<char>)
    requires
        fits(e, Form::List(Seq::<Form>::empty().push(sym("validate-uuid"@)).push(sym("id"@)))),
    ensures
        expr_ok(e),
{
    lemma_fits_list(e, Seq::<Form>::empty().push(sym("validate-uuid"@)).push(sym("id"@)));
    let items = e.kind->List_0;
    lemma_fits_atom(items[0], AtomView::Symbol("validate-uuid"@));
    head_validate_uuid();
    assert forall|k: int| 1 <= k < items.len() implies expr_ok(#[trigger] items[k]) by {
        if k == 1 {
            lemma_fits_atom(items[1], AtomView::Symbol("id"@));
            lemma_atom_ok(items[1], AtomView::Symbol("id"@));
        }
    }
    lemma_call_ok(e, "validate-uuid"@);
}

proof fn read_body_part4(e: SExprView, store: Seq<char>)
    requires
        fits(e, Form::List(Seq::<Form>::empty().push(sym("err"@)).push(sym("_"@)))),
    ensures
        pattern_ok(e),
{
    lemma_fits_list(e, Seq::<Form>::empty().push(sym("err"@)).push(sym("_"@)));
    let items = e.kind->List_0;
    lemma_fits_atom(items[0], AtomView::Symbol("err"@));
    assert forall|k: int| 1 <= k < items.len() implies pattern_ok(#[trigger] items[k]) by {
        if k == 1 {
            lemma_fits_atom(items[1], AtomView::Symbol("_"@));
            lemma_pattern_atom(items[1], AtomView::Symbol("_"@));
        }
    }
    lemma_pattern_ctor(e);
}

proof fn read_body_part6(e: SExprView, store: Seq<char>)
    requires
        fits(e, plain_map(Seq::<Form>::empty().push(kw("id"@)).push(sym("id"@)))),
    ensures
        expr_ok(e),
{
    lemma_fits_map(e, Seq::<Form>::empty().push(kw("id"@)).push(sym("id"@)));
    let es = e.kind->Mapping_0;
    assert forall|k: int| 0 <= k < es.len() implies name_of((#[trigger] es[k]).0) is Some && expr_ok(es[k].1) by {
        if k == 0 {
            lemma_fits_atom(es[0].0, AtomView::Keyword("id"@));
            lemma_fits_atom(es[0].1, AtomView::Symbol("id"@));
            lemma_atom_ok(es[0].1, AtomView::Symbol("id"@));
        }
    }
    lemma_map_ok(e);
}

proof fn read_body_part5(e: SExprView, store: Seq<char>)
    requires
        fits(
            e,
            Form::List(
                Seq::<Form>::empty()
                    .push(sym("err"@))
                    .push(kw("invalid-id"@))
                    .push(plain_map(Seq::<Form>::empty().push(kw("id"@)).push(sym("id"@)))),
            ),
        ),
    ensures
        expr_ok(e),
{
    lemma_fits_list(
        e,
        Seq::<Form>::empty()
            .push(sym("err"@))
            .push(kw("invalid-id"@))
            .push(plain_map(Seq::<Form>::empty().push(kw("id"@)).push(sym("id"@)))),
    );
    let items = e.kind->List_0;
    lemma_fits_atom(items[0], AtomView::Symbol("err"@));
    lemma_fits_atom(items[1], AtomView::Keyword("invalid-id"@));
    read_body_part6(items[2], store);
    lemma_err_form(e);
}

proof fn read_body_part7(e: SExprView, store: Seq<char>)
    requires
        fits(e, Form::List(Seq::<Form>::empty().push(sym("ok"@)).push(sym("uuid"@)))),
    ensures
        pattern_ok(e),
{
    lemma_fits_list(e, Seq::<Form>::empty().push(sym("ok"@)).push(sym("uuid"@)));
    let items = e.kind->List_0;
    lemma_fits_atom(items[0], AtomView::Symbol("ok"@));
    assert forall|k: int| 1 <= k < items.len() implies pattern_ok(#[trigger] items[k]) by {
        if k == 1 {
            lemma_fits_atom(items[1], AtomView::Symbol("uuid"@));
            lemma_pattern_atom(items[1], AtomView::Symbol("uuid"@));
        }
    }
    lemma_pattern_ctor(e);
}

proof fn read_body_part10(e: SExprView, store: Seq<char>)
    requires
        fits(e, plain_map(Seq::<Form>::empty().push(kw("id"@)).push(sym("uuid"@)))),
    ensures
        expr_ok(e),
{
    lemma_fits_map(e, Seq::<Form>::empty().push(kw("id"@)).push(sym("uuid"@)));
    let es = e.kind->Mapping_0;
    assert forall|k: int| 0 <= k < es.len() implies name_of((#[trigger] es[k]).0) is Some && expr_ok(es[k].1) by {
        if k == 0 {
            lemma_fits_atom(es[0].0, AtomView::Keyword("id"@));
            lemma_fits_atom(es[0].1, AtomView::Symbol("uuid"@));
            lemma_atom_ok(es[0].1, AtomView::Symbol("uuid"@));
        }
    }
    lemma_map_ok(e);
}

proof fn read_body_part9(e: SExprView, store: Seq<char>)
    requires
        fits(
            e,
            Form::List(
                Seq::<Form>::empty()
                    .push(sym("query"@))
                    .push(sym(store))
                    .push(plain_map(Seq::<Form>::empty().push(kw("id"@)).push(sym("uuid"@)))),
            ),
        ),
    ensures
        expr_ok(e),
{
    lemma_fits_list(
        e,
        Seq::<Form>::empty()
            .push(sym("query"@))
            .push(sym(store))
            .push(plain_map(Seq::<Form>::empty().push(kw("id"@)).push(sym("uuid"@)))),
    );
    let items = e.kind->List_0;
    lemma_fits_atom(items[0], AtomView::Symbol("query"@));
    head_query();
    assert forall|k: int| 1 <= k < items.len() implies expr_ok(#[trigger] items[k]) by {
        if k == 1 {
            lemma_fits_atom(items[1], AtomView::Symbol(store));
            lemma_atom_ok(items[1], AtomView::Symbol(store));
        } else if k == 2 {
            read_body_part10(items[2], store);
        }
    }
    lemma_call_ok(e, "query"@);
}

proof fn read_body_part11(e: SExprView, store: Seq<char>)
    requires
        fits(e, Form::List(Seq::<Form>::empty().push(sym("none"@)))),
    ensures
        pattern_ok(e),
{
    lemma_fits_list(e, Seq::<Form>::empty().push(sym("none"@)));
    let items = e.kind->List_0;
    lemma_fits_atom(items[0], AtomView::Symbol("none"@));
    assert forall|k: int| 1 <= k < items.len() implies pattern_ok(#[trigger] items[k]) by {
    }
    lemma_pattern_ctor(e);
}

proof fn read_body_part13(e: SExprView, store: Seq<char>)
    requires
        fits(e, plain_map(Seq::<Form>::empty().push(kw("id"@)).push(sym("uuid"@)))),
    ensures
        expr_ok(e),
{
    lemma_fits_map(e, Seq::<Form>::empty().push(kw("id"@)).push(sym("uuid"@)));
    let es = e.kind->Mapping_0;
    assert forall|k: int| 0 <= k < es.len() implies name_of((#[trigger] es[k]).0) is Some && expr_ok(es[k].1) by {
        if k == 0 {
            lemma_fits_atom(es[0].0, AtomView::Keyword("id"@));
            lemma_fits_atom(es[0].1, AtomView::Symbol("uuid"@));
            lemma_atom_ok(es[0].1, AtomView::Symbol("uuid"@));
        }
    }
    lemma_map_ok(e);
}

proof fn read_body_part12(e: SExprView, store: Seq<char>)
    requires
        fits(
            e,
            Form::List(
                Seq::<Form>::empty()
                    .push(sym("err"@))
                    .push(kw("not-found"@))
                    .push(plain_map(Seq::<Form>::empty().push(kw("id"@)).push(sym("uuid"@)))),
            ),
        ),
    ensures
        expr_ok(e),
{
    lemma_fits_list(
        e,
        Seq::<Form>::empty()
            .push(sym("err"@))
            .push(kw("not-found"@))
            .push(plain_map(Seq::<Form>::empty().push(kw("id"@)).push(sym("uuid"@)))),
    );
    let items = e.kind->List_0;
    lemma_fits_atom(items[0], AtomView::Symbol("err"@));
    lemma_fits_atom(items[1], AtomView::Keyword("not-found"@));
    read_body_part13(items[2], store);
    lemma_err_form(e);
}

proof fn read_body_part14(e: SExprView, store: Seq<char>)
    requires
        fits(e, Form::List(Seq::<Form>::empty().push(sym("some"@)).push(sym("u"@)))),
    ensures
        pattern_ok(e),
{
    lemma_fits_list(e, Seq::<Form>::empty().push(sym("some"@)).push(sym("u"@)));
    let items = e.kind->List_0;
    lemma_fits_atom(items[0], AtomView::Symbol("some"@));
    assert forall|k: int| 1 <= k < items.len() implies pattern_ok(#[trigger] items[k]) by {
        if k == 1 {
            lemma_fits_atom(items[1], AtomView::Symbol("u"@));
            lemma_pattern_atom(items[1], AtomView::Symbol("u"@));
        }
    }
    lemma_pattern_ctor(e);
}

proof fn read_body_part15(e: SExprView, store: Seq<char>)
    requires
        fits(e, Form::List(Seq::<Form>::empty().push(sym("ok"@)).push(sym("u"@)))),
    ensures
        expr_ok(e),
{
    lemma_fits_list(e, Seq::<Form>::empty().push(sym("ok"@)).push(sym("u"@)));
    let items = e.kind->List_0;
    lemma_fits_atom(items[0], AtomView::Symbol("ok"@));
    lemma_fits_atom(items[1], AtomView::Symbol("u"@));
    lemma_atom_ok(items[1], AtomView::Symbol("u"@));
    lemma_ok_form(e);
}

proof fn read_body_part8(e: SExprView, store: Seq<char>)
    requires
        fits(
            e,
            Form::List(
                Seq::<Form>::empty()
                    .push(sym("match"@))
                    .push(
                        Form::List(
                            Seq::<Form>::empty()
                                .push(sym("query"@))
                                .push(sym(store))
                                .push(
                                    plain_map(
                                        Seq::<Form>::empty().push(kw("id"@)).push(sym("uuid"@)),
                                    ),
                                ),
                        ),
                    )
                    .push(Form::List(Seq::<Form>::empty().push(sym("none"@))))
                    .push(
                        Form::List(
                            Seq::<Form>::empty()
                                .push(sym("err"@))
                                .push(kw("not-found"@))
                                .push(
                                    plain_map(
                                        Seq::<Form>::empty().push(kw("id"@)).push(sym("uuid"@)),
                                    ),
                                ),
                        ),
                    )
                    .push(Form::List(Seq::<Form>::empty().push(sym("some"@)).push(sym("u"@))))
                    .push(Form::List(Seq::<Form>::empty().push(sym("ok"@)).push(sym("u"@)))),
            ),
        ),
    ensures
        expr_ok(e),
{
    lemma_fits_list(
        e,
        Seq::<Form>::empty()
            .push(sym("match"@))
            .push(
                Form::List(
                    Seq::<Form>::empty()
                        .push(sym("query"@))
                        .push(sym(store))
                        .push(plain_map(Seq::<Form>::empty().push(kw("id"@)).push(sym("uuid"@)))),
                ),
            )
            .push(Form::List(Seq::<Form>::empty().push(sym("none"@))))
            .push(
                Form::List(
                    Seq::<Form>::empty()
                        .push(sym("err"@))
                        .push(kw("not-found"@))
                        .push(plain_map(Seq::<Form>::empty().push(kw("id"@)).push(sym("uuid"@)))),
                ),
            )
            .push(Form::List(Seq::<Form>::empty().push(sym("some"@)).push(sym("u"@))))
            .push(Form::List(Seq::<Form>::empty().push(sym("ok"@)).push(sym("u"@)))),
    );
    let items = e.kind->List_0;
    lemma_fits_atom(items[0], AtomView::Symbol("match"@));
    read_body_part9(items[1], store);
    assert forall|k: int| 2 <= k && k + 1 < items.len() && (k - 2) % 2
        == 0 implies pattern_ok(#[trigger] items[k]) && expr_ok(items[k + 1]) by {
        if k == 2 {
            read_body_part11(items[2], store);
            read_body_part12(items[3], store);
        } else if k == 4 {
            read_body_part14(items[4], store);
            read_body_part15(items[5], store);
        }
    }
    lemma_match_ok(e);
}

proof fn read_body_part3(e: SExprView, store: Seq<char>)
    requires
        fits(
            e,
            Form::List(
                Seq::<Form>::empty()
                    .push(sym("match"@))
                    .push(sym("validated-id"@))
                    .push(Form::List(Seq::<Form>::empty().push(sym("err"@)).push(sym("_"@))))
                    .push(
                        Form::List(
                            Seq::<Form>::empty()
                                .push(sym("err"@))
                                .push(kw("invalid-id"@))
                                .push(
                                    plain_map(Seq::<Form>::empty().push(kw("id"@)).push(sym("id"@))),
                                ),
                        ),
                    )
                    .push(Form::List(Seq::<Form>::empty().push(sym("ok"@)).push(sym("uuid"@))))
                    .push(
                        Form::List(
                            Seq::<Form>::empty()
                                .push(sym("match"@))
                                .push(
                                    Form::List(
                                        Seq::<Form>::empty()
                                            .push(sym("query"@))
                                            .push(sym(store))
                                            .push(
                                                plain_map(
                                                    Seq::<Form>::empty()
                                                        .push(kw("id"@))
                                                        .push(sym("uuid"@)),
                                                ),
                                            ),
                                    ),
                                )
                                .push(Form::List(Seq::<Form>::empty().push(sym("none"@))))
                                .push(
                                    Form::List(
                                        Seq::<Form>::empty()
                                            .push(sym("err"@))
                                            .push(kw("not-found"@))
                                            .push(
                                                plain_map(
                                                    Seq::<Form>::empty()
                                                        .push(kw("id"@))
                                                        .push(sym("uuid"@)),
                                                ),
                                            ),
                                    ),
                                )
                                .push(
                                    Form::List(
                                        Seq::<Form>::empty().push(sym("some"@)).push(sym("u"@)),
                                    ),
                                )
                                .push(
                                    Form::List(
                                        Seq::<Form>::empty().push(sym("ok"@)).push(sym("u"@)),
                                    ),
                                ),
                        ),
                    ),
            ),
        ),
    ensures
        expr_ok(e),
{
    lemma_fits_list(
        e,
        Seq::<Form>::empty()
            .push(sym("match"@))
            .push(sym("validated-id"@))
            .push(Form::List(Seq::<Form>::empty().push(sym("err"@)).push(sym("_"@))))
            .push(
                Form::List(
                    Seq::<Form>::empty()
                        .push(sym("err"@))
                        .push(kw("invalid-id"@))
                        .push(plain_map(Seq::<Form>::empty().push(kw("id"@)).push(sym("id"@)))),
                ),
            )
            .push(Form::List(Seq::<Form>::empty().push(sym("ok"@)).push(sym("uuid"@))))
            .push(
                Form::List(
                    Seq::<Form>::empty()
                        .push(sym("match"@))
                        .push(
                            Form::List(
                                Seq::<Form>::empty()
                                    .push(sym("query"@))
                                    .push(sym(store))
                                    .push(
                                        plain_map(
                                            Seq::<Form>::empty().push(kw("id"@)).push(sym("uuid"@)),
                                        ),
                                    ),
                            ),
                        )
                        .push(Form::List(Seq::<Form>::empty().push(sym("none"@))))
                        .push(
                            Form::List(
                                Seq::<Form>::empty()
                                    .push(sym("err"@))
                                    .push(kw("not-found"@))
                                    .push(
                                        plain_map(
                                            Seq::<Form>::empty().push(kw("id"@)).push(sym("uuid"@)),
                                        ),
                                    ),
                            ),
                        )
                        .push(Form::List(Seq::<Form>::empty().push(sym("some"@)).push(sym("u"@))))
                        .push(Form::List(Seq::<Form>::empty().push(sym("ok"@)).push(sym("u"@)))),
                ),
            ),
    );
    let items = e.kind->List_0;
    lemma_fits_atom(items[0], AtomView::Symbol("match"@));
    lemma_fits_atom(items[1], AtomView::Symbol("validated-id"@));
    lemma_atom_ok(items[1], AtomView::Symbol("validated-id"@));
    assert forall|k: int| 2 <= k && k + 1 < items.len() && (k - 2) % 2
        == 0 implies pattern_ok(#[trigger] items[k]) && expr_ok(items[k + 1]) by {
        if k == 2 {
            read_body_part4(items[2], store);
            read_body_part5(items[3], store);
        } else if k == 4 {
            read_body_part7(items[4], store);
            read_body_part8(items[5], store);
        }
    }
    lemma_match_ok(e);
}

proof fn read_body_part1(e: SExprView, store: Seq<char>)
    requires
        fits(
            e,
            Form::List(
                Seq::<Form>::empty()
                    .push(sym("let"@))
                    .push(
                        Form::Vector(
                            Seq::<Form>::empty()
                                .push(sym("validated-id"@))
                                .push(
                                    Form::List(
                                        Seq::<Form>::empty()
                                            .push(sym("validate-uuid"@))
                                            .push(sym("id"@)),
                                    ),
                                ),
                        ),
                    )
                    .push(
                        Form::List(
                            Seq::<Form>::empty()
                                .push(sym("match"@))
                                .push(sym("validated-id"@))
                                .push(
                                    Form::List(
                                        Seq::<Form>::empty().push(sym("err"@)).push(sym("_"@)),
                                    ),
                                )
                                .push(
                                    Form::List(
                                        Seq::<Form>::empty()
                                            .push(sym("err"@))
                                            .push(kw("invalid-id"@))
                                            .push(
                                                plain_map(
                                                    Seq::<Form>::empty()
                                                        .push(kw("id"@))
                                                        .push(sym("id"@)),
                                                ),
                                            ),
                                    ),
                                )
                                .push(
                                    Form::List(
                                        Seq::<Form>::empty().push(sym("ok"@)).push(sym("uuid"@)),
                                    ),
                                )
                                .push(
                                    Form::List(
                                        Seq::<Form>::empty()
                                            .push(sym("match"@))
                                            .push(
                                                Form::List(
                                                    Seq::<Form>::empty()
                                                        .push(sym("query"@))
                                                        .push(sym(store))
                                                        .push(
                                                            plain_map(
                                                                Seq::<Form>::empty()
                                                                    .push(kw("id"@))
                                                                    .push(sym("uuid"@)),
                                                            ),
                                                        ),
                                                ),
                                            )
                                            .push(
                                                Form::List(Seq::<Form>::empty().push(sym("none"@))),
                                            )
                                            .push(
                                                Form::List(
                                                    Seq::<Form>::empty()
                                                        .push(sym("err"@))
                                                        .push(kw("not-found"@))
                                                        .push(
                                                            plain_map(
                                                                Seq::<Form>::empty()
                                                                    .push(kw("id"@))
                                                                    .push(sym("uuid"@)),
                                                            ),
                                                        ),
                                                ),
                                            )
                                            .push(
                                                Form::List(
                                                    Seq::<Form>::empty()
                                                        .push(sym("some"@))
                                                        .push(sym("u"@)),
                                                ),
                                            )
                                            .push(
                                                Form::List(
                                                    Seq::<Form>::empty()
                                                        .push(sym("ok"@))
                                                        .push(sym("u"@)),
                                                ),
                                            ),
                                    ),
                                ),
                        ),
                    ),
            ),
        ),
    ensures
        expr_ok(e),
{
    lemma_fits_list(
        e,
        Seq::<Form>::empty()
            .push(sym("let"@))
            .push(
                Form::Vector(
                    Seq::<Form>::empty()
                        .push(sym("validated-id"@))
                        .push(
                            Form::List(
                                Seq::<Form>::empty().push(sym("validate-uuid"@)).push(sym("id"@)),
                            ),
                        ),
                ),
            )
            .push(
                Form::List(
                    Seq::<Form>::empty()
                        .push(sym("match"@))
                        .push(sym("validated-id"@))
                        .push(Form::List(Seq::<Form>::empty().push(sym("err"@)).push(sym("_"@))))
                        .push(
                            Form::List(
                                Seq::<Form>::empty()
                                    .push(sym("err"@))
                                    .push(kw("invalid-id"@))
                                    .push(
                                        plain_map(
                                            Seq::<Form>::empty().push(kw("id"@)).push(sym("id"@)),
                                        ),
                                    ),
                            ),
                        )
                        .push(Form::List(Seq::<Form>::empty().push(sym("ok"@)).push(sym("uuid"@))))
                        .push(
                            Form::List(
                                Seq::<Form>::empty()
                                    .push(sym("match"@))
                                    .push(
                                        Form::List(
                                            Seq::<Form>::empty()
                                                .push(sym("query"@))
                                                .push(sym(store))
                                                .push(
                                                    plain_map(
                                                        Seq::<Form>::empty()
                                                            .push(kw("id"@))
                                                            .push(sym("uuid"@)),
                                                    ),
                                                ),
                                        ),
                                    )
                                    .push(Form::List(Seq::<Form>::empty().push(sym("none"@))))
                                    .push(
                                        Form::List(
                                            Seq::<Form>::empty()
                                                .push(sym("err"@))
                                                .push(kw("not-found"@))
                                                .push(
                                                    plain_map(
                                                        Seq::<Form>::empty()
                                                            .push(kw("id"@))
                                                            .push(sym("uuid"@)),
                                                    ),
                                                ),
                                        ),
                                    )
                                    .push(
                                        Form::List(
                                            Seq::<Form>::empty().push(sym("some"@)).push(sym("u"@)),
                                        ),
                                    )
                                    .push(
                                        Form::List(
                                            Seq::<Form>::empty().push(sym("ok"@)).push(sym("u"@)),
                                        ),
                                    ),
                            ),
                        ),
                ),
            ),
    );
    let items = e.kind->List_0;
    lemma_fits_atom(items[0], AtomView::Symbol("let"@));
    lemma_fits_vector(
        items[1],
        Seq::<Form>::empty()
            .push(sym("validated-id"@))
            .push(Form::List(Seq::<Form>::empty().push(sym("validate-uuid"@)).push(sym("id"@)))),
    );
    let pairs = items[1].kind->Vector_0;
    assert forall|k: int| 0 <= k && k + 1 < pairs.len() && (k - 0) % 2
        == 0 implies sym_of(#[trigger] pairs[k]) is Some && expr_ok(pairs[k + 1]) by {
        if k == 0 {
            lemma_fits_atom(pairs[0], AtomView::Symbol("validated-id"@));
            read_body_part2(pairs[1], store);
        }
    }
    read_body_part3(items[2], store);
    lemma_let_ok(e);
}

/// A tree that fits the form of the body of a reading function lowers as an expression.
pub proof fn read_body_lowers(e: SExprView, store: Seq<char>)
    requires
        fits(
            e,
            Form::List(
                Seq::<Form>::empty()
                    .push(sym("let"@))
                    .push(
                        Form::Vector(
                            Seq::<Form>::empty()
                                .push(sym("validated-id"@))
                                .push(
                                    Form::List(
                                        Seq::<Form>::empty()
                                            .push(sym("validate-uuid"@))
                                            .push(sym("id"@)),
                                    ),
                                ),
                        ),
                    )
                    .push(
                        Form::List(
                            Seq::<Form>::empty()
                                .push(sym("match"@))
                                .push(sym("validated-id"@))
                                .push(
                                    Form::List(
                                        Seq::<Form>::empty().push(sym("err"@)).push(sym("_"@)),
                                    ),
                                )
                                .push(
                                    Form::List(
                                        Seq::<Form>::empty()
                                            .push(sym("err"@))
                                            .push(kw("invalid-id"@))
                                            .push(
                                                plain_map(
                                                    Seq::<Form>::empty()
                                                        .push(kw("id"@))
                                                        .push(sym("id"@)),
                                                ),
                                            ),
                                    ),
                                )
                                .push(
                                    Form::List(
                                        Seq::<Form>::empty().push(sym("ok"@)).push(sym("uuid"@)),
                                    ),
                                )
                                .push(
                                    Form::List(
                                        Seq::<Form>::empty()
                                            .push(sym("match"@))
                                            .push(
                                                Form::List(
                                                    Seq::<Form>::empty()
                                                        .push(sym("query"@))
                                                        .push(sym(store))
                                                        .push(
                                                            plain_map(
                                                                Seq::<Form>::empty()
                                                                    .push(kw("id"@))
                                                                    .push(sym("uuid"@)),
                                                            ),
                                                        ),
                                                ),
                                            )
                                            .push(
                                                Form::List(Seq::<Form>::empty().push(sym("none"@))),
                                            )
                                            .push(
                                                Form::List(
                                                    Seq::<Form>::empty()
                                                        .push(sym("err"@))
                                                        .push(kw("not-found"@))
                                                        .push(
                                                            plain_map(
                                                                Seq::<Form>::empty()
                                                                    .push(kw("id"@))
                                                                    .push(sym("uuid"@)),
                                                            ),
                                                        ),
                                                ),
                                            )
                                            .push(
                                                Form::List(
                                                    Seq::<Form>::empty()
                                                        .push(sym("some"@))
                                                        .push(sym("u"@)),
                                                ),
                                            )
                                            .push(
                                                Form::List(
                                                    Seq::<Form>::empty()
                                                        .push(sym("ok"@))
                                                        .push(sym("u"@)),
                                                ),
                                            ),
                                    ),
                                ),
                        ),
                    ),
            ),
        ),
    ensures
        expr_ok(e),
        head_of(e) == Some("let"@),
{
    read_body_part1(e, store);
    lemma_fits_list(
        e,
        Seq::<Form>::empty()
            .push(sym("let"@))
            .push(
                Form::Vector(
                    Seq::<Form>::empty()
                        .push(sym("validated-id"@))
                        .push(
                            Form::List(
                                Seq::<Form>::empty().push(sym("validate-uuid"@)).push(sym("id"@)),
                            ),
                        ),
                ),
            )
            .push(
                Form::List(
                    Seq::<Form>::empty()
                        .push(sym("match"@))
                        .push(sym("validated-id"@))
                        .push(Form::List(Seq::<Form>::empty().push(sym("err"@)).push(sym("_"@))))
                        .push(
                            Form::List(
                                Seq::<Form>::empty()
                                    .push(sym("err"@))
                                    .push(kw("invalid-id"@))
                                    .push(
                                        plain_map(
                                            Seq::<Form>::empty().push(kw("id"@)).push(sym("id"@)),
                                        ),
                                    ),
                            ),
                        )
                        .push(Form::List(Seq::<Form>::empty().push(sym("ok"@)).push(sym("uuid"@))))
                        .push(
                            Form::List(
                                Seq::<Form>::empty()
                                    .push(sym("match"@))
                                    .push(
                                        Form::List(
                                            Seq::<Form>::empty()
                                                .push(sym("query"@))
                                                .push(sym(store))
                                                .push(
                                                    plain_map(
                                                        Seq::<Form>::empty()
                                                            .push(kw("id"@))
                                                            .push(sym("uuid"@)),
                                                    ),
                                                ),
                                        ),
                                    )
                                    .push(Form::List(Seq::<Form>::empty().push(sym("none"@))))
                                    .push(
                                        Form::List(
                                            Seq::<Form>::empty()
                                                .push(sym("err"@))
                                                .push(kw("not-found"@))
                                                .push(
                                                    plain_map(
                                                        Seq::<Form>::empty()
                                                            .push(kw("id"@))
                                                            .push(sym("uuid"@)),
                                                    ),
                                                ),
                                        ),
                                    )
                                    .push(
                                        Form::List(
                                            Seq::<Form>::empty().push(sym("some"@)).push(sym("u"@)),
                                        ),
                                    )
                                    .push(
                                        Form::List(
                                            Seq::<Form>::empty().push(sym("ok"@)).push(sym("u"@)),
                                        ),
                                    ),
                            ),
                        ),
                ),
            ),
    );
    lemma_fits_atom(e.kind->List_0[0], AtomView::Symbol("let"@));
}

proof fn write_body_field_part2(
    e: SExprView,
    store: Seq<char>,
    primary: Seq<char>,
    field: Seq<char>,
)
    requires
        fits(
            e,
            Form::List(
                Seq::<Form>::empty()
                    .push(sym("validate-against"@))
                    .push(sym(primary))
                    .push(sym("input"@)),
            ),
        ),
    ensures
        expr_ok(e),
{
    lemma_fits_list(
        e,
        Seq::<Form>::empty().push(sym("validate-against"@)).push(sym(primary)).push(sym("input"@)),
    );
    let items = e.kind->List_0;
    lemma_fits_atom(items[0], AtomView::Symbol("validate-against"@));
    head_validate_against();
    assert forall|k: int| 1 <= k < items.len() implies expr_ok(#[trigger] items[k]) by {
        if k == 1 {
            lemma_fits_atom(items[1], AtomView::Symbol(primary));
            lemma_atom_ok(items[1], AtomView::Symbol(primary));
        } else if k == 2 {
            lemma_fits_atom(items[2], AtomView::Symbol("input"@));
            lemma_atom_ok(items[2], AtomView::Symbol("input"@));
        }
    }
    lemma_call_ok(e, "validate-against"@);
}

proof fn write_body_field_part4(
    e: SExprView,
    store: Seq<char>,
    primary: Seq<char>,
    field: Seq<char>,
)
    requires
        fits(e, Form::List(Seq::<Form>::empty().push(sym("non-empty?"@)).push(sym("errors"@)))),
    ensures
        expr_ok(e),
{
    lemma_fits_list(e, Seq::<Form>::empty().push(sym("non-empty?"@)).push(sym("errors"@)));
    let items = e.kind->List_0;
    lemma_fits_atom(items[0], AtomView::Symbol("non-empty?"@));
    head_non_empty();
    assert forall|k: int| 1 <= k < items.len() implies expr_ok(#[trigger] items[k]) by {
        if k == 1 {
            lemma_fits_atom(items[1], AtomView::Symbol("errors"@));
            lemma_atom_ok(items[1], AtomView::Symbol("errors"@));
        }
    }
    lemma_call_ok(e, "non-empty?"@);
}

proof fn write_body_field_part5(
    e: SExprView,
    store: Seq<char>,
    primary: Seq<char>,
    field: Seq<char>,
)
    requires
        fits(
            e,
            Form::List(
                Seq::<Form>::empty()
                    .push(sym("err"@))
                    .push(kw("validation-failed"@))
                    .push(sym("errors"@)),
            ),
        ),
    ensures
        expr_ok(e),
{
    lemma_fits_list(
        e,
        Seq::<Form>::empty().push(sym("err"@)).push(kw("validation-failed"@)).push(sym("errors"@)),
    );
    let items = e.kind->List_0;
    lemma_fits_atom(items[0], AtomView::Symbol("err"@));
    lemma_fits_atom(items[1], AtomView::Keyword("validation-failed"@));
    lemma_fits_atom(items[2], AtomView::Symbol("errors"@));
    lemma_atom_ok(items[2], AtomView::Symbol("errors"@));
    lemma_err_form(e);
}

proof fn write_body_field_part8(
    e: SExprView,
    store: Seq<char>,
    primary: Seq<char>,
    field: Seq<char>,
)
    requires
        fits(
            e,
            Form::List(
                Seq::<Form>::empty().push(sym("build"@)).push(sym(primary)).push(sym("input"@)),
            ),
        ),
    ensures
        expr_ok(e),
{
    lemma_fits_list(
        e,
        Seq::<Form>::empty().push(sym("build"@)).push(sym(primary)).push(sym("input"@)),
    );
    let items = e.kind->List_0;
    lemma_fits_atom(items[0], AtomView::Symbol("build"@));
    head_build();
    assert forall|k: int| 1 <= k < items.len() implies expr_ok(#[trigger] items[k]) by {
        if k == 1 {
            lemma_fits_atom(items[1], AtomView::Symbol(primary));
            lemma_atom_ok(items[1], AtomView::Symbol(primary));
        } else if k == 2 {
            lemma_fits_atom(items[2], AtomView::Symbol("input"@));
            lemma_atom_ok(items[2], AtomView::Symbol("input"@));
        }
    }
    lemma_call_ok(e, "build"@);
}

proof fn write_body_field_part7(
    e: SExprView,
    store: Seq<char>,
    primary: Seq<char>,
    field: Seq<char>,
)
    requires
        fits(
            e,
            Form::List(
                Seq::<Form>::empty()
                    .push(sym("insert!"@))
                    .push(sym(store))
                    .push(
                        Form::List(
                            Seq::<Form>::empty()
                                .push(sym("build"@))
                                .push(sym(primary))
                                .push(sym("input"@)),
                        ),
                    ),
            ),
        ),
    ensures
        expr_ok(e),
{
    lemma_fits_list(
        e,
        Seq::<Form>::empty()
            .push(sym("insert!"@))
            .push(sym(store))
            .push(
                Form::List(
                    Seq::<Form>::empty().push(sym("build"@)).push(sym(primary)).push(sym("input"@)),
                ),
            ),
    );
    let items = e.kind->List_0;
    lemma_fits_atom(items[0], AtomView::Symbol("insert!"@));
    head_insert();
    assert forall|k: int| 1 <= k < items.len() implies expr_ok(#[trigger] items[k]) by {
        if k == 1 {
            lemma_fits_atom(items[1], AtomView::Symbol(store));
            lemma_atom_ok(items[1], AtomView::Symbol(store));
        } else if k == 2 {
            write_body_field_part8(items[2], store, primary, field);
        }
    }
    lemma_call_ok(e, "insert!"@);
}

proof fn write_body_field_part9(
    e: SExprView,
    store: Seq<char>,
    primary: Seq<char>,
    field: Seq<char>,
)
    requires
        fits(e, Form::List(Seq::<Form>::empty().push(sym("err"@)).push(kw("unique-violation"@)))),
    ensures
        pattern_ok(e),
{
    lemma_fits_list(e, Seq::<Form>::empty().push(sym("err"@)).push(kw("unique-violation"@)));
    let items = e.kind->List_0;
    lemma_fits_atom(items[0], AtomView::Symbol("err"@));
    assert forall|k: int| 1 <= k < items.len() implies pattern_ok(#[trigger] items[k]) by {
        if k == 1 {
            lemma_fits_atom(items[1], AtomView::Keyword("unique-violation"@));
            lemma_pattern_atom(items[1], AtomView::Keyword("unique-violation"@));
        }
    }
    lemma_pattern_ctor(e);
}

proof fn write_body_field_part12(
    e: SExprView,
    store: Seq<char>,
    primary: Seq<char>,
    field: Seq<char>,
)
    requires
        fits(
            e,
            Form::List(Seq::<Form>::empty().push(sym("."@)).push(sym("input"@)).push(sym(field))),
        ),
    ensures
        expr_ok(e),
{
    lemma_fits_list(e, Seq::<Form>::empty().push(sym("."@)).push(sym("input"@)).push(sym(field)));
    let items = e.kind->List_0;
    lemma_fits_atom(items[0], AtomView::Symbol("."@));
    lemma_fits_atom(items[1], AtomView::Symbol("input"@));
    lemma_atom_ok(items[1], AtomView::Symbol("input"@));
    lemma_fits_atom(items[2], AtomView::Symbol(field));
    lemma_access_ok(e);
}

proof fn write_body_field_part11(
    e: SExprView,
    store: Seq<char>,
    primary: Seq<char>,
    field: Seq<char>,
)
    requires
        fits(
            e,
            plain_map(
                Seq::<Form>::empty()
                    .push(kw(field))
                    .push(
                        Form::List(
                            Seq::<Form>::empty()
                                .push(sym("."@))
                                .push(sym("input"@))
                                .push(sym(field)),
                        ),
                    ),
            ),
        ),
    ensures
        expr_ok(e),
{
    lemma_fits_map(
        e,
        Seq::<Form>::empty()
            .push(kw(field))
            .push(
                Form::List(
                    Seq::<Form>::empty().push(sym("."@)).push(sym("input"@)).push(sym(field)),
                ),
            ),
    );
    let es = e.kind->Mapping_0;
    assert forall|k: int| 0 <= k < es.len() implies name_of((#[trigger] es[k]).0) is Some && expr_ok(es[k].1) by {
        if k == 0 {
            lemma_fits_atom(es[0].0, AtomView::Keyword(field));
            write_body_field_part12(es[0].1, store, primary, field);
        }
    }
    lemma_map_ok(e);
}

proof fn write_body_field_part10(
    e: SExprView,
    store: Seq<char>,
    primary: Seq<char>,
    field: Seq<char>,
)
    requires
        fits(
            e,
            Form::List(
                Seq::<Form>::empty()
                    .push(sym("err"@))
                    .push(kw("duplicate-"@ + field))
                    .push(
                        plain_map(
                            Seq::<Form>::empty()
                                .push(kw(field))
                                .push(
                                    Form::List(
                                        Seq::<Form>::empty()
                                            .push(sym("."@))
                                            .push(sym("input"@))
                                            .push(sym(field)),
                                    ),
                                ),
                        ),
                    ),
            ),
        ),
    ensures
        expr_ok(e),
{
    lemma_fits_list(
        e,
        Seq::<Form>::empty()
            .push(sym("err"@))
            .push(kw("duplicate-"@ + field))
            .push(
                plain_map(
                    Seq::<Form>::empty()
                        .push(kw(field))
                        .push(
                            Form::List(
                                Seq::<Form>::empty()
                                    .push(sym("."@))
                                    .push(sym("input"@))
                                    .push(sym(field)),
                            ),
                        ),
                ),
            ),
    );
    let items = e.kind->List_0;
    lemma_fits_atom(items[0], AtomView::Symbol("err"@));
    lemma_fits_atom(items[1], AtomView::Keyword("duplicate-"@ + field));
    write_body_field_part11(items[2], store, primary, field);
    lemma_err_form(e);
}

proof fn write_body_field_part13(
    e: SExprView,
    store: Seq<char>,
    primary: Seq<char>,
    field: Seq<char>,
)
    requires
        fits(e, Form::List(Seq::<Form>::empty().push(sym("ok"@)).push(sym("entity"@)))),
    ensures
        pattern_ok(e),
{
    lemma_fits_list(e, Seq::<Form>::empty().push(sym("ok"@)).push(sym("entity"@)));
    let items = e.kind->List_0;
    lemma_fits_atom(items[0], AtomView::Symbol("ok"@));
    assert forall|k: int| 1 <= k < items.len() implies pattern_ok(#[trigger] items[k]) by {
        if k == 1 {
            lemma_fits_atom(items[1], AtomView::Symbol("entity"@));
            lemma_pattern_atom(items[1], AtomView::Symbol("entity"@));
        }
    }
    lemma_pattern_ctor(e);
}

proof fn write_body_field_part14(
    e: SExprView,
    store: Seq<char>,
    primary: Seq<char>,
    field: Seq<char>,
)
    requires
        fits(e, Form::List(Seq::<Form>::empty().push(sym("ok"@)).push(sym("entity"@)))),
    ensures
        expr_ok(e),
{
    lemma_fits_list(e, Seq::<Form>::empty().push(sym("ok"@)).push(sym("entity"@)));
    let items = e.kind->List_0;
    lemma_fits_atom(items[0], AtomView::Symbol("ok"@));
    lemma_fits_atom(items[1], AtomView::Symbol("entity"@));
    lemma_atom_ok(items[1], AtomView::Symbol("entity"@));
    lemma_ok_form(e);
}

proof fn write_body_field_part6(
    e: SExprView,
    store: Seq<char>,
    primary: Seq<char>,
    field: Seq<char>,
)
    requires
        fits(
            e,
            Form::List(
                Seq::<Form>::empty()
                    .push(sym("match"@))
                    .push(
                        Form::List(
                            Seq::<Form>::empty()
                                .push(sym("insert!"@))
                                .push(sym(store))
                                .push(
                                    Form::List(
                                        Seq::<Form>::empty()
                                            .push(sym("build"@))
                                            .push(sym(primary))
                                            .push(sym("input"@)),
                                    ),
                                ),
                        ),
                    )
                    .push(
                        Form::List(
                            Seq::<Form>::empty().push(sym("err"@)).push(kw("unique-violation"@)),
                        ),
                    )
                    .push(
                        Form::List(
                            Seq::<Form>::empty()
                                .push(sym("err"@))
                                .push(kw("duplicate-"@ + field))
                                .push(
                                    plain_map(
                                        Seq::<Form>::empty()
                                            .push(kw(field))
                                            .push(
                                                Form::List(
                                                    Seq::<Form>::empty()
                                                        .push(sym("."@))
                                                        .push(sym("input"@))
                                                        .push(sym(field)),
                                                ),
                                            ),
                                    ),
                                ),
                        ),
                    )
                    .push(Form::List(Seq::<Form>::empty().push(sym("ok"@)).push(sym("entity"@))))
                    .push(Form::List(Seq::<Form>::empty().push(sym("ok"@)).push(sym("entity"@)))),
            ),
        ),
    ensures
        expr_ok(e),
{
    lemma_fits_list(
        e,
        Seq::<Form>::empty()
            .push(sym("match"@))
            .push(
                Form::List(
                    Seq::<Form>::empty()
                        .push(sym("insert!"@))
                        .push(sym(store))
                        .push(
                            Form::List(
                                Seq::<Form>::empty()
                                    .push(sym("build"@))
                                    .push(sym(primary))
                                    .push(sym("input"@)),
                            ),
                        ),
                ),
            )
            .push(Form::List(Seq::<Form>::empty().push(sym("err"@)).push(kw("unique-violation"@))))
            .push(
                Form::List(
                    Seq::<Form>::empty()
                        .push(sym("err"@))
                        .push(kw("duplicate-"@ + field))
                        .push(
                            plain_map(
                                Seq::<Form>::empty()
                                    .push(kw(field))
                                    .push(
                                        Form::List(
                                            Seq::<Form>::empty()
                                                .push(sym("."@))
                                                .push(sym("input"@))
                                                .push(sym(field)),
                                        ),
                                    ),
                            ),
                        ),
                ),
            )
            .push(Form::List(Seq::<Form>::empty().push(sym("ok"@)).push(sym("entity"@))))
            .push(Form::List(Seq::<Form>::empty().push(sym("ok"@)).push(sym("entity"@)))),
    );
    let items = e.kind->List_0;
    lemma_fits_atom(items[0], AtomView::Symbol("match"@));
    write_body_field_part7(items[1], store, primary, field);
    assert forall|k: int| 2 <= k && k + 1 < items.len() && (k - 2) % 2
        == 0 implies pattern_ok(#[trigger] items[k]) && expr_ok(items[k + 1]) by {
        if k == 2 {
            write_body_field_part9(items[2], store, primary, field);
            write_body_field_part10(items[3], store, primary, field);
        } else if k == 4 {
            write_body_field_part13(items[4], store, primary, field);
            write_body_field_part14(items[5], store, primary, field);
        }
    }
    lemma_match_ok(e);
}

proof fn write_body_field_part3(
    e: SExprView,
    store: Seq<char>,
    primary: Seq<char>,
    field: Seq<char>,
)
    requires
        fits(
            e,
            Form::List(
                Seq::<Form>::empty()
                    .push(sym("if"@))
                    .push(
                        Form::List(
                            Seq::<Form>::empty().push(sym("non-empty?"@)).push(sym("errors"@)),
                        ),
                    )
                    .push(
                        Form::List(
                            Seq::<Form>::empty()
                                .push(sym("err"@))
                                .push(kw("validation-failed"@))
                                .push(sym("errors"@)),
                        ),
                    )
                    .push(
                        Form::List(
                            Seq::<Form>::empty()
                                .push(sym("match"@))
                                .push(
                                    Form::List(
                                        Seq::<Form>::empty()
                                            .push(sym("insert!"@))
                                            .push(sym(store))
                                            .push(
                                                Form::List(
                                                    Seq::<Form>::empty()
                                                        .push(sym("build"@))
                                                        .push(sym(primary))
                                                        .push(sym("input"@)),
                                                ),
                                            ),
                                    ),
                                )
                                .push(
                                    Form::List(
                                        Seq::<Form>::empty()
                                            .push(sym("err"@))
                                            .push(kw("unique-violation"@)),
                                    ),
                                )
                                .push(
                                    Form::List(
                                        Seq::<Form>::empty()
                                            .push(sym("err"@))
                                            .push(kw("duplicate-"@ + field))
                                            .push(
                                                plain_map(
                                                    Seq::<Form>::empty()
                                                        .push(kw(field))
                                                        .push(
                                                            Form::List(
                                                                Seq::<Form>::empty()
                                                                    .push(sym("."@))
                                                                    .push(sym("input"@))
                                                                    .push(sym(field)),
                                                            ),
                                                        ),
                                                ),
                                            ),
                                    ),
                                )
                                .push(
                                    Form::List(
                                        Seq::<Form>::empty().push(sym("ok"@)).push(sym("entity"@)),
                                    ),
                                )
                                .push(
                                    Form::List(
                                        Seq::<Form>::empty().push(sym("ok"@)).push(sym("entity"@)),
                                    ),
                                ),
                        ),
                    ),
            ),
        ),
    ensures
        expr_ok(e),
{
    lemma_fits_list(
        e,
        Seq::<Form>::empty()
            .push(sym("if"@))
            .push(Form::List(Seq::<Form>::empty().push(sym("non-empty?"@)).push(sym("errors"@))))
            .push(
                Form::List(
                    Seq::<Form>::empty()
                        .push(sym("err"@))
                        .push(kw("validation-failed"@))
                        .push(sym("errors"@)),
                ),
            )
            .push(
                Form::List(
                    Seq::<Form>::empty()
                        .push(sym("match"@))
                        .push(
                            Form::List(
                                Seq::<Form>::empty()
                                    .push(sym("insert!"@))
                                    .push(sym(store))
                                    .push(
                                        Form::List(
                                            Seq::<Form>::empty()
                                                .push(sym("build"@))
                                                .push(sym(primary))
                                                .push(sym("input"@)),
                                        ),
                                    ),
                            ),
                        )
                        .push(
                            Form::List(
                                Seq::<Form>::empty().push(sym("err"@)).push(kw("unique-violation"@)),
                            ),
                        )
                        .push(
                            Form::List(
                                Seq::<Form>::empty()
                                    .push(sym("err"@))
                                    .push(kw("duplicate-"@ + field))
                                    .push(
                                        plain_map(
                                            Seq::<Form>::empty()
                                                .push(kw(field))
                                                .push(
                                                    Form::List(
                                                        Seq::<Form>::empty()
                                                            .push(sym("."@))
                                                            .push(sym("input"@))
                                                            .push(sym(field)),
                                                    ),
                                                ),
                                        ),
                                    ),
                            ),
                        )
                        .push(
                            Form::List(Seq::<Form>::empty().push(sym("ok"@)).push(sym("entity"@))),
                        )
                        .push(
                            Form::List(Seq::<Form>::empty().push(sym("ok"@)).push(sym("entity"@))),
                        ),
                ),
            ),
    );
    let items = e.kind->List_0;
    lemma_fits_atom(items[0], AtomView::Symbol("if"@));
    write_body_field_part4(items[1], store, primary, field);
    write_body_field_part5(items[2], store, primary, field);
    write_body_field_part6(items[3], store, primary, field);
    lemma_if_ok(e);
}

proof fn write_body_field_part1(
    e: SExprView,
    store: Seq<char>,
    primary: Seq<char>,
    field: Seq<char>,
)
    requires
        fits(
            e,
            Form::List(
                Seq::<Form>::empty()
                    .push(sym("let"@))
                    .push(
                        Form::Vector(
                            Seq::<Form>::empty()
                                .push(sym("errors"@))
                                .push(
                                    Form::List(
                                        Seq::<Form>::empty()
                                            .push(sym("validate-against"@))
                                            .push(sym(primary))
                                            .push(sym("input"@)),
                                    ),
                                ),
                        ),
                    )
                    .push(
                        Form::List(
                            Seq::<Form>::empty()
                                .push(sym("if"@))
                                .push(
                                    Form::List(
                                        Seq::<Form>::empty()
                                            .push(sym("non-empty?"@))
                                            .push(sym("errors"@)),
                                    ),
                                )
                                .push(
                                    Form::List(
                                        Seq::<Form>::empty()
                                            .push(sym("err"@))
                                            .push(kw("validation-failed"@))
                                            .push(sym("errors"@)),
                                    ),
                                )
                                .push(
                                    Form::List(
                                        Seq::<Form>::empty()
                                            .push(sym("match"@))
                                            .push(
                                                Form::List(
                                                    Seq::<Form>::empty()
                                                        .push(sym("insert!"@))
                                                        .push(sym(store))
                                                        .push(
                                                            Form::List(
                                                                Seq::<Form>::empty()
                                                                    .push(sym("build"@))
                                                                    .push(sym(primary))
                                                                    .push(sym("input"@)),
                                                            ),
                                                        ),
                                                ),
                                            )
                                            .push(
                                                Form::List(
                                                    Seq::<Form>::empty()
                                                        .push(sym("err"@))
                                                        .push(kw("unique-violation"@)),
                                                ),
                                            )
                                            .push(
                                                Form::List(
                                                    Seq::<Form>::empty()
                                                        .push(sym("err"@))
                                                        .push(kw("duplicate-"@ + field))
                                                        .push(
                                                            plain_map(
                                                                Seq::<Form>::empty()
                                                                    .push(kw(field))
                                                                    .push(
                                                                        Form::List(
                                                                            Seq::<Form>::empty()
                                                                                .push(sym("."@))
                                                                                .push(sym("input"@))
                                                                                .push(sym(field)),
                                                                        ),
                                                                    ),
                                                            ),
                                                        ),
                                                ),
                                            )
                                            .push(
                                                Form::List(
                                                    Seq::<Form>::empty()
                                                        .push(sym("ok"@))
                                                        .push(sym("entity"@)),
                                                ),
                                            )
                                            .push(
                                                Form::List(
                                                    Seq::<Form>::empty()
                                                        .push(sym("ok"@))
                                                        .push(sym("entity"@)),
                                                ),
                                            ),
                                    ),
                                ),
                        ),
                    ),
            ),
        ),
    ensures
        expr_ok(e),
{
    lemma_fits_list(
        e,
        Seq::<Form>::empty()
            .push(sym("let"@))
            .push(
                Form::Vector(
                    Seq::<Form>::empty()
                        .push(sym("errors"@))
                        .push(
                            Form::List(
                                Seq::<Form>::empty()
                                    .push(sym("validate-against"@))
                                    .push(sym(primary))
                                    .push(sym("input"@)),
                            ),
                        ),
                ),
            )
            .push(
                Form::List(
                    Seq::<Form>::empty()
                        .push(sym("if"@))
                        .push(
                            Form::List(
                                Seq::<Form>::empty().push(sym("non-empty?"@)).push(sym("errors"@)),
                            ),
                        )
                        .push(
                            Form::List(
                                Seq::<Form>::empty()
                                    .push(sym("err"@))
                                    .push(kw("validation-failed"@))
                                    .push(sym("errors"@)),
                            ),
                        )
                        .push(
                            Form::List(
                                Seq::<Form>::empty()
                                    .push(sym("match"@))
                                    .push(
                                        Form::List(
                                            Seq::<Form>::empty()
                                                .push(sym("insert!"@))
                                                .push(sym(store))
                                                .push(
                                                    Form::List(
                                                        Seq::<Form>::empty()
                                                            .push(sym("build"@))
                                                            .push(sym(primary))
                                                            .push(sym("input"@)),
                                                    ),
                                                ),
                                        ),
                                    )
                                    .push(
                                        Form::List(
                                            Seq::<Form>::empty()
                                                .push(sym("err"@))
                                                .push(kw("unique-violation"@)),
                                        ),
                                    )
                                    .push(
                                        Form::List(
                                            Seq::<Form>::empty()
                                                .push(sym("err"@))
                                                .push(kw("duplicate-"@ + field))
                                                .push(
                                                    plain_map(
                                                        Seq::<Form>::empty()
                                                            .push(kw(field))
                                                            .push(
                                                                Form::List(
                                                                    Seq::<Form>::empty()
                                                                        .push(sym("."@))
                                                                        .push(sym("input"@))
                                                                        .push(sym(field)),
                                                                ),
                                                            ),
                                                    ),
                                                ),
                                        ),
                                    )
                                    .push(
                                        Form::List(
                                            Seq::<Form>::empty()
                                                .push(sym("ok"@))
                                                .push(sym("entity"@)),
                                        ),
                                    )
                                    .push(
                                        Form::List(
                                            Seq::<Form>::empty()
                                                .push(sym("ok"@))
                                                .push(sym("entity"@)),
                                        ),
                                    ),
                            ),
                        ),
                ),
            ),
    );
    let items = e.kind->List_0;
    lemma_fits_atom(items[0], AtomView::Symbol("let"@));
    lemma_fits_vector(
        items[1],
        Seq::<Form>::empty()
            .push(sym("errors"@))
            .push(
                Form::List(
                    Seq::<Form>::empty()
                        .push(sym("validate-against"@))
                        .push(sym(primary))
                        .push(sym("input"@)),
                ),
            ),
    );
    let pairs = items[1].kind->Vector_0;
    assert forall|k: int| 0 <= k && k + 1 < pairs.len() && (k - 0) % 2
        == 0 implies sym_of(#[trigger] pairs[k]) is Some && expr_ok(pairs[k + 1]) by {
        if k == 0 {
            lemma_fits_atom(pairs[0], AtomView::Symbol("errors"@));
            write_body_field_part2(pairs[1], store, primary, field);
        }
    }
    write_body_field_part3(items[2], store, primary, field);
    lemma_let_ok(e);
}

/// A tree that fits the form of the body of a writing function with a unique field lowers as an
/// expression.
pub proof fn write_body_field_lowers(
    e: SExprView,
    store: Seq<char>,
    primary: Seq<char>,
    field: Seq<char>,
)
    requires
        fits(
            e,
            Form::List(
                Seq::<Form>::empty()
                    .push(sym("let"@))
                    .push(
                        Form::Vector(
                            Seq::<Form>::empty()
                                .push(sym("errors"@))
                                .push(
                                    Form::List(
                                        Seq::<Form>::empty()
                                            .push(sym("validate-against"@))
                                            .push(sym(primary))
                                            .push(sym("input"@)),
                                    ),
                                ),
                        ),
                    )
                    .push(
                        Form::List(
                            Seq::<Form>::empty()
                                .push(sym("if"@))
                                .push(
                                    Form::List(
                                        Seq::<Form>::empty()
                                            .push(sym("non-empty?"@))
                                            .push(sym("errors"@)),
                                    ),
                                )
                                .push(
                                    Form::List(
                                        Seq::<Form>::empty()
                                            .push(sym("err"@))
                                            .push(kw("validation-failed"@))
                                            .push(sym("errors"@)),
                                    ),
                                )
                                .push(
                                    Form::List(
                                        Seq::<Form>::empty()
                                            .push(sym("match"@))
                                            .push(
                                                Form::List(
                                                    Seq::<Form>::empty()
                                                        .push(sym("insert!"@))
                                                        .push(sym(store))
                                                        .push(
                                                            Form::List(
                                                                Seq::<Form>::empty()
                                                                    .push(sym("build"@))
                                                                    .push(sym(primary))
                                                                    .push(sym("input"@)),
                                                            ),
                                                        ),
                                                ),
                                            )
                                            .push(
                                                Form::List(
                                                    Seq::<Form>::empty()
                                                        .push(sym("err"@))
                                                        .push(kw("unique-violation"@)),
                                                ),
                                            )
                                            .push(
                                                Form::List(
                                                    Seq::<Form>::empty()
                                                        .push(sym("err"@))
                                                        .push(kw("duplicate-"@ + field))
                                                        .push(
                                                            plain_map(
                                                                Seq::<Form>::empty()
                                                                    .push(kw(field))
                                                                    .push(
                                                                        Form::List(
                                                                            Seq::<Form>::empty()
                                                                                .push(sym("."@))
                                                                                .push(sym("input"@))
                                                                                .push(sym(field)),
                                                                        ),
                                                                    ),
                                                            ),
                                                        ),
                                                ),
                                            )
                                            .push(
                                                Form::List(
                                                    Seq::<Form>::empty()
                                                        .push(sym("ok"@))
                                                        .push(sym("entity"@)),
                                                ),
                                            )
                                            .push(
                                                Form::List(
                                                    Seq::<Form>::empty()
                                                        .push(sym("ok"@))
                                                        .push(sym("entity"@)),
                                                ),
                                            ),
                                    ),
                                ),
                        ),
                    ),
            ),
        ),
    ensures
        expr_ok(e),
        head_of(e) == Some("let"@),
{
    write_body_field_part1(e, store, primary, field);
    lemma_fits_list(
        e,
        Seq::<Form>::empty()
            .push(sym("let"@))
            .push(
                Form::Vector(
                    Seq::<Form>::empty()
                        .push(sym("errors"@))
                        .push(
                            Form::List(
                                Seq::<Form>::empty()
                                    .push(sym("validate-against"@))
                                    .push(sym(primary))
                                    .push(sym("input"@)),
                            ),
                        ),
                ),
            )
            .push(
                Form::List(
                    Seq::<Form>::empty()
                        .push(sym("if"@))
                        .push(
                            Form::List(
                                Seq::<Form>::empty().push(sym("non-empty?"@)).push(sym("errors"@)),
                            ),
                        )
                        .push(
                            Form::List(
                                Seq::<Form>::empty()
                                    .push(sym("err"@))
                                    .push(kw("validation-failed"@))
                                    .push(sym("errors"@)),
                            ),
                        )
                        .push(
                            Form::List(
                                Seq::<Form>::empty()
                                    .push(sym("match"@))
                                    .push(
                                        Form::List(
                                            Seq::<Form>::empty()
                                                .push(sym("insert!"@))
                                                .push(sym(store))
                                                .push(
                                                    Form::List(
                                                        Seq::<Form>::empty()
                                                            .push(sym("build"@))
                                                            .push(sym(primary))
                                                            .push(sym("input"@)),
                                                    ),
                                                ),
                                        ),
                                    )
                                    .push(
                                        Form::List(
                                            Seq::<Form>::empty()
                                                .push(sym("err"@))
                                                .push(kw("unique-violation"@)),
                                        ),
                                    )
                                    .push(
                                        Form::List(
                                            Seq::<Form>::empty()
                                                .push(sym("err"@))
                                                .push(kw("duplicate-"@ + field))
                                                .push(
                                                    plain_map(
                                                        Seq::<Form>::empty()
                                                            .push(kw(field))
                                                            .push(
                                                                Form::List(
                                                                    Seq::<Form>::empty()
                                                                        .push(sym("."@))
                                                                        .push(sym("input"@))
                                                                        .push(sym(field)),
                                                                ),
                                                            ),
                                                    ),
                                                ),
                                        ),
                                    )
                                    .push(
                                        Form::List(
                                            Seq::<Form>::empty()
                                                .push(sym("ok"@))
                                                .push(sym("entity"@)),
                                        ),
                                    )
                                    .push(
                                        Form::List(
                                            Seq::<Form>::empty()
                                                .push(sym("ok"@))
                                                .push(sym("entity"@)),
                                        ),
                                    ),
                            ),
                        ),
                ),
            ),
    );
    lemma_fits_atom(e.kind->List_0[0], AtomView::Symbol("let"@));
}

proof fn write_body_plain_part2(e: SExprView, store: Seq<char>, primary: Seq<char>)
    requires
        fits(
            e,
            Form::List(
                Seq::<Form>::empty()
                    .push(sym("validate-against"@))
                    .push(sym(primary))
                    .push(sym("input"@)),
            ),
        ),
    ensures
        expr_ok(e),
{
    lemma_fits_list(
        e,
        Seq::<Form>::empty().push(sym("validate-against"@)).push(sym(primary)).push(sym("input"@)),
    );
    let items = e.kind->List_0;
    lemma_fits_atom(items[0], AtomView::Symbol("validate-against"@));
    head_validate_against();
    assert forall|k: int| 1 <= k < items.len() implies expr_ok(#[trigger] items[k]) by {
        if k == 1 {
            lemma_fits_atom(items[1], AtomView::Symbol(primary));
            lemma_atom_ok(items[1], AtomView::Symbol(primary));
        } else if k == 2 {
            lemma_fits_atom(items[2], AtomView::Symbol("input"@));
            lemma_atom_ok(items[2], AtomView::Symbol("input"@));
        }
    }
    lemma_call_ok(e, "validate-against"@);
}

proof fn write_body_plain_part4(e: SExprView, store: Seq<char>, primary: Seq<char>)
    requires
        fits(e, Form::List(Seq::<Form>::empty().push(sym("non-empty?"@)).push(sym("errors"@)))),
    ensures
        expr_ok(e),
{
    lemma_fits_list(e, Seq::<Form>::empty().push(sym("non-empty?"@)).push(sym("errors"@)));
    let items = e.kind->List_0;
    lemma_fits_atom(items[0], AtomView::Symbol("non-empty?"@));
    head_non_empty();
    assert forall|k: int| 1 <= k < items.len() implies expr_ok(#[trigger] items[k]) by {
        if k == 1 {
            lemma_fits_atom(items[1], AtomView::Symbol("errors"@));
            lemma_atom_ok(items[1], AtomView::Symbol("errors"@));
        }
    }
    lemma_call_ok(e, "non-empty?"@);
}

proof fn write_body_plain_part5(e: SExprView, store: Seq<char>, primary: Seq<char>)
    requires
        fits(
            e,
            Form::List(
                Seq::<Form>::empty()
                    .push(sym("err"@))
                    .push(kw("validation-failed"@))
                    .push(sym("errors"@)),
            ),
        ),
    ensures
        expr_ok(e),
{
    lemma_fits_list(
        e,
        Seq::<Form>::empty().push(sym("err"@)).push(kw("validation-failed"@)).push(sym("errors"@)),
    );
    let items = e.kind->List_0;
    lemma_fits_atom(items[0], AtomView::Symbol("err"@));
    lemma_fits_atom(items[1], AtomView::Keyword("validation-failed"@));
    lemma_fits_atom(items[2], AtomView::Symbol("errors"@));
    lemma_atom_ok(items[2], AtomView::Symbol("errors"@));
    lemma_err_form(e);
}

proof fn write_body_plain_part8(e: SExprView, store: Seq<char>, primary: Seq<char>)
    requires
        fits(
            e,
            Form::List(
                Seq::<Form>::empty().push(sym("build"@)).push(sym(primary)).push(sym("input"@)),
            ),
        ),
    ensures
        expr_ok(e),
{
    lemma_fits_list(
        e,
        Seq::<Form>::empty().push(sym("build"@)).push(sym(primary)).push(sym("input"@)),
    );
    let items = e.kind->List_0;
    lemma_fits_atom(items[0], AtomView::Symbol("build"@));
    head_build();
    assert forall|k: int| 1 <= k < items.len() implies expr_ok(#[trigger] items[k]) by {
        if k == 1 {
            lemma_fits_atom(items[1], AtomView::Symbol(primary));
            lemma_atom_ok(items[1], AtomView::Symbol(primary));
        } else if k == 2 {
            lemma_fits_atom(items[2], AtomView::Symbol("input"@));
            lemma_atom_ok(items[2], AtomView::Symbol("input"@));
        }
    }
    lemma_call_ok(e, "build"@);
}

proof fn write_body_plain_part7(e: SExprView, store: Seq<char>, primary: Seq<char>)
    requires
        fits(
            e,
            Form::List(
                Seq::<Form>::empty()
                    .push(sym("insert!"@))
                    .push(sym(store))
                    .push(
                        Form::List(
                            Seq::<Form>::empty()
                                .push(sym("build"@))
                                .push(sym(primary))
                                .push(sym("input"@)),
                        ),
                    ),
            ),
        ),
    ensures
        expr_ok(e),
{
    lemma_fits_list(
        e,
        Seq::<Form>::empty()
            .push(sym("insert!"@))
            .push(sym(store))
            .push(
                Form::List(
                    Seq::<Form>::empty().push(sym("build"@)).push(sym(primary)).push(sym("input"@)),
                ),
            ),
    );
    let items = e.kind->List_0;
    lemma_fits_atom(items[0], AtomView::Symbol("insert!"@));
    head_insert();
    assert forall|k: int| 1 <= k < items.len() implies expr_ok(#[trigger] items[k]) by {
        if k == 1 {
            lemma_fits_atom(items[1], AtomView::Symbol(store));
            lemma_atom_ok(items[1], AtomView::Symbol(store));
        } else if k == 2 {
            write_body_plain_part8(items[2], store, primary);
        }
    }
    lemma_call_ok(e, "insert!"@);
}

proof fn write_body_plain_part9(e: SExprView, store: Seq<char>, primary: Seq<char>)
    requires
        fits(e, Form::List(Seq::<Form>::empty().push(sym("err"@)).push(kw("unique-violation"@)))),
    ensures
        pattern_ok(e),
{
    lemma_fits_list(e, Seq::<Form>::empty().push(sym("err"@)).push(kw("unique-violation"@)));
    let items = e.kind->List_0;
    lemma_fits_atom(items[0], AtomView::Symbol("err"@));
    assert forall|k: int| 1 <= k < items.len() implies pattern_ok(#[trigger] items[k]) by {
        if k == 1 {
            lemma_fits_atom(items[1], AtomView::Keyword("unique-violation"@));
            lemma_pattern_atom(items[1], AtomView::Keyword("unique-violation"@));
        }
    }
    lemma_pattern_ctor(e);
}

proof fn write_body_plain_part11(e: SExprView, store: Seq<char>, primary: Seq<char>)
    requires
        fits(e, plain_map(Seq::<Form>::empty().push(kw("input"@)).push(sym("input"@)))),
    ensures
        expr_ok(e),
{
    lemma_fits_map(e, Seq::<Form>::empty().push(kw("input"@)).push(sym("input"@)));
    let es = e.kind->Mapping_0;
    assert forall|k: int| 0 <= k < es.len() implies name_of((#[trigger] es[k]).0) is Some && expr_ok(es[k].1) by {
        if k == 0 {
            lemma_fits_atom(es[0].0, AtomView::Keyword("input"@));
            lemma_fits_atom(es[0].1, AtomView::Symbol("input"@));
            lemma_atom_ok(es[0].1, AtomView::Symbol("input"@));
        }
    }
    lemma_map_ok(e);
}

proof fn write_body_plain_part10(e: SExprView, store: Seq<char>, primary: Seq<char>)
    requires
        fits(
            e,
            Form::List(
                Seq::<Form>::empty()
                    .push(sym("err"@))
                    .push(kw("duplicate"@))
                    .push(plain_map(Seq::<Form>::empty().push(kw("input"@)).push(sym("input"@)))),
            ),
        ),
    ensures
        expr_ok(e),
{
    lemma_fits_list(
        e,
        Seq::<Form>::empty()
            .push(sym("err"@))
            .push(kw("duplicate"@))
            .push(plain_map(Seq::<Form>::empty().push(kw("input"@)).push(sym("input"@)))),
    );
    let items = e.kind->List_0;
    lemma_fits_atom(items[0], AtomView::Symbol("err"@));
    lemma_fits_atom(items[1], AtomView::Keyword("duplicate"@));
    write_body_plain_part11(items[2], store, primary);
    lemma_err_form(e);
}

proof fn write_body_plain_part12(e: SExprView, store: Seq<char>, primary: Seq<char>)
    requires
        fits(e, Form::List(Seq::<Form>::empty().push(sym("ok"@)).push(sym("entity"@)))),
    ensures
        pattern_ok(e),
{
    lemma_fits_list(e, Seq::<Form>::empty().push(sym("ok"@)).push(sym("entity"@)));
    let items = e.kind->List_0;
    lemma_fits_atom(items[0], AtomView::Symbol("ok"@));
    assert forall|k: int| 1 <= k < items.len() implies pattern_ok(#[trigger] items[k]) by {
        if k == 1 {
            lemma_fits_atom(items[1], AtomView::Symbol("entity"@));
            lemma_pattern_atom(items[1], AtomView::Symbol("entity"@));
        }
    }
    lemma_pattern_ctor(e);
}

proof fn write_body_plain_part13(e: SExprView, store: Seq<char>, primary: Seq<char>)
    requires
        fits(e, Form::List(Seq::<Form>::empty().push(sym("ok"@)).push(sym("entity"@)))),
    ensures
        expr_ok(e),
{
    lemma_fits_list(e, Seq::<Form>::empty().push(sym("ok"@)).push(sym("entity"@)));
    let items = e.kind->List_0;
    lemma_fits_atom(items[0], AtomView::Symbol("ok"@));
    lemma_fits_atom(items[1], AtomView::Symbol("entity"@));
    lemma_atom_ok(items[1], AtomView::Symbol("entity"@));
    lemma_ok_form(e);
}

proof fn write_body_plain_part6(e: SExprView, store: Seq<char>, primary: Seq<char>)
    requires
        fits(
            e,
            Form::List(
                Seq::<Form>::empty()
                    .push(sym("match"@))
                    .push(
                        Form::List(
                            Seq::<Form>::empty()
                                .push(sym("insert!"@))
                                .push(sym(store))
                                .push(
                                    Form::List(
                                        Seq::<Form>::empty()
                                            .push(sym("build"@))
                                            .push(sym(primary))
                                            .push(sym("input"@)),
                                    ),
                                ),
                        ),
                    )
                    .push(
                        Form::List(
                            Seq::<Form>::empty().push(sym("err"@)).push(kw("unique-violation"@)),
                        ),
                    )
                    .push(
                        Form::List(
                            Seq::<Form>::empty()
                                .push(sym("err"@))
                                .push(kw("duplicate"@))
                                .push(
                                    plain_map(
                                        Seq::<Form>::empty().push(kw("input"@)).push(sym("input"@)),
                                    ),
                                ),
                        ),
                    )
                    .push(Form::List(Seq::<Form>::empty().push(sym("ok"@)).push(sym("entity"@))))
                    .push(Form::List(Seq::<Form>::empty().push(sym("ok"@)).push(sym("entity"@)))),
            ),
        ),
    ensures
        expr_ok(e),
{
    lemma_fits_list(
        e,
        Seq::<Form>::empty()
            .push(sym("match"@))
            .push(
                Form::List(
                    Seq::<Form>::empty()
                        .push(sym("insert!"@))
                        .push(sym(store))
                        .push(
                            Form::List(
                                Seq::<Form>::empty()
                                    .push(sym("build"@))
                                    .push(sym(primary))
                                    .push(sym("input"@)),
                            ),
                        ),
                ),
            )
            .push(Form::List(Seq::<Form>::empty().push(sym("err"@)).push(kw("unique-violation"@))))
            .push(
                Form::List(
                    Seq::<Form>::empty()
                        .push(sym("err"@))
                        .push(kw("duplicate"@))
                        .push(
                            plain_map(Seq::<Form>::empty().push(kw("input"@)).push(sym("input"@))),
                        ),
                ),
            )
            .push(Form::List(Seq::<Form>::empty().push(sym("ok"@)).push(sym("entity"@))))
            .push(Form::List(Seq::<Form>::empty().push(sym("ok"@)).push(sym("entity"@)))),
    );
    let items = e.kind->List_0;
    lemma_fits_atom(items[0], AtomView::Symbol("match"@));
    write_body_plain_part7(items[1], store, primary);
    assert forall|k: int| 2 <= k && k + 1 < items.len() && (k - 2) % 2
        == 0 implies pattern_ok(#[trigger] items[k]) && expr_ok(items[k + 1]) by {
        if k == 2 {
            write_body_plain_part9(items[2], store, primary);
            write_body_plain_part10(items[3], store, primary);
        } else if k == 4 {
            write_body_plain_part12(items[4], store, primary);
            write_body_plain_part13(items[5], store, primary);
        }
    }
    lemma_match_ok(e);
}

proof fn write_body_plain_part3(e: SExprView, store: Seq<char>, primary: Seq<char>)
    requires
        fits(
            e,
            Form::List(
                Seq::<Form>::empty()
                    .push(sym("if"@))
                    .push(
                        Form::List(
                            Seq::<Form>::empty().push(sym("non-empty?"@)).push(sym("errors"@)),
                        ),
                    )
                    .push(
                        Form::List(
                            Seq::<Form>::empty()
                                .push(sym("err"@))
                                .push(kw("validation-failed"@))
                                .push(sym("errors"@)),
                        ),
                    )
                    .push(
                        Form::List(
                            Seq::<Form>::empty()
                                .push(sym("match"@))
                                .push(
                                    Form::List(
                                        Seq::<Form>::empty()
                                            .push(sym("insert!"@))
                                            .push(sym(store))
                                            .push(
                                                Form::List(
                                                    Seq::<Form>::empty()
                                                        .push(sym("build"@))
                                                        .push(sym(primary))
                                                        .push(sym("input"@)),
                                                ),
                                            ),
                                    ),
                                )
                                .push(
                                    Form::List(
                                        Seq::<Form>::empty()
                                            .push(sym("err"@))
                                            .push(kw("unique-violation"@)),
                                    ),
                                )
                                .push(
                                    Form::List(
                                        Seq::<Form>::empty()
                                            .push(sym("err"@))
                                            .push(kw("duplicate"@))
                                            .push(
                                                plain_map(
                                                    Seq::<Form>::empty()
                                                        .push(kw("input"@))
                                                        .push(sym("input"@)),
                                                ),
                                            ),
                                    ),
                                )
                                .push(
                                    Form::List(
                                        Seq::<Form>::empty().push(sym("ok"@)).push(sym("entity"@)),
                                    ),
                                )
                                .push(
                                    Form::List(
                                        Seq::<Form>::empty().push(sym("ok"@)).push(sym("entity"@)),
                                    ),
                                ),
                        ),
                    ),
            ),
        ),
    ensures
        expr_ok(e),
{
    lemma_fits_list(
        e,
        Seq::<Form>::empty()
            .push(sym("if"@))
            .push(Form::List(Seq::<Form>::empty().push(sym("non-empty?"@)).push(sym("errors"@))))
            .push(
                Form::List(
                    Seq::<Form>::empty()
                        .push(sym("err"@))
                        .push(kw("validation-failed"@))
                        .push(sym("errors"@)),
                ),
            )
            .push(
                Form::List(
                    Seq::<Form>::empty()
                        .push(sym("match"@))
                        .push(
                            Form::List(
                                Seq::<Form>::empty()
                                    .push(sym("insert!"@))
                                    .push(sym(store))
                                    .push(
                                        Form::List(
                                            Seq::<Form>::empty()
                                                .push(sym("build"@))
                                                .push(sym(primary))
                                                .push(sym("input"@)),
                                        ),
                                    ),
                            ),
                        )
                        .push(
                            Form::List(
                                Seq::<Form>::empty().push(sym("err"@)).push(kw("unique-violation"@)),
                            ),
                        )
                        .push(
                            Form::List(
                                Seq::<Form>::empty()
                                    .push(sym("err"@))
                                    .push(kw("duplicate"@))
                                    .push(
                                        plain_map(
                                            Seq::<Form>::empty()
                                                .push(kw("input"@))
                                                .push(sym("input"@)),
                                        ),
                                    ),
                            ),
                        )
                        .push(
                            Form::List(Seq::<Form>::empty().push(sym("ok"@)).push(sym("entity"@))),
                        )
                        .push(
                            Form::List(Seq::<Form>::empty().push(sym("ok"@)).push(sym("entity"@))),
                        ),
                ),
            ),
    );
    let items = e.kind->List_0;
    lemma_fits_atom(items[0], AtomView::Symbol("if"@));
    write_body_plain_part4(items[1], store, primary);
    write_body_plain_part5(items[2], store, primary);
    write_body_plain_part6(items[3], store, primary);
    lemma_if_ok(e);
}

proof fn write_body_plain_part1(e: SExprView, store: Seq<char>, primary: Seq<char>)
    requires
        fits(
            e,
            Form::List(
                Seq::<Form>::empty()
                    .push(sym("let"@))
                    .push(
                        Form::Vector(
                            Seq::<Form>::empty()
                                .push(sym("errors"@))
                                .push(
                                    Form::List(
                                        Seq::<Form>::empty()
                                            .push(sym("validate-against"@))
                                            .push(sym(primary))
                                            .push(sym("input"@)),
                                    ),
                                ),
                        ),
                    )
                    .push(
                        Form::List(
                            Seq::<Form>::empty()
                                .push(sym("if"@))
                                .push(
                                    Form::List(
                                        Seq::<Form>::empty()
                                            .push(sym("non-empty?"@))
                                            .push(sym("errors"@)),
                                    ),
                                )
                                .push(
                                    Form::List(
                                        Seq::<Form>::empty()
                                            .push(sym("err"@))
                                            .push(kw("validation-failed"@))
                                            .push(sym("errors"@)),
                                    ),
                                )
                                .push(
                                    Form::List(
                                        Seq::<Form>::empty()
                                            .push(sym("match"@))
                                            .push(
                                                Form::List(
                                                    Seq::<Form>::empty()
                                                        .push(sym("insert!"@))
                                                        .push(sym(store))
                                                        .push(
                                                            Form::List(
                                                                Seq::<Form>::empty()
                                                                    .push(sym("build"@))
                                                                    .push(sym(primary))
                                                                    .push(sym("input"@)),
                                                            ),
                                                        ),
                                                ),
                                            )
                                            .push(
                                                Form::List(
                                                    Seq::<Form>::empty()
                                                        .push(sym("err"@))
                                                        .push(kw("unique-violation"@)),
                                                ),
                                            )
                                            .push(
                                                Form::List(
                                                    Seq::<Form>::empty()
                                                        .push(sym("err"@))
                                                        .push(kw("duplicate"@))
                                                        .push(
                                                            plain_map(
                                                                Seq::<Form>::empty()
                                                                    .push(kw("input"@))
                                                                    .push(sym("input"@)),
                                                            ),
                                                        ),
                                                ),
                                            )
                                            .push(
                                                Form::List(
                                                    Seq::<Form>::empty()
                                                        .push(sym("ok"@))
                                                        .push(sym("entity"@)),
                                                ),
                                            )
                                            .push(
                                                Form::List(
                                                    Seq::<Form>::empty()
                                                        .push(sym("ok"@))
                                                        .push(sym("entity"@)),
                                                ),
                                            ),
                                    ),
                                ),
                        ),
                    ),
            ),
        ),
    ensures
        expr_ok(e),
{
    lemma_fits_list(
        e,
        Seq::<Form>::empty()
            .push(sym("let"@))
            .push(
                Form::Vector(
                    Seq::<Form>::empty()
                        .push(sym("errors"@))
                        .push(
                            Form::List(
                                Seq::<Form>::empty()
                                    .push(sym("validate-against"@))
                                    .push(sym(primary))
                                    .push(sym("input"@)),
                            ),
                        ),
                ),
            )
            .push(
                Form::List(
                    Seq::<Form>::empty()
                        .push(sym("if"@))
                        .push(
                            Form::List(
                                Seq::<Form>::empty().push(sym("non-empty?"@)).push(sym("errors"@)),
                            ),
                        )
                        .push(
                            Form::List(
                                Seq::<Form>::empty()
                                    .push(sym("err"@))
                                    .push(kw("validation-failed"@))
                                    .push(sym("errors"@)),
                            ),
                        )
                        .push(
                            Form::List(
                                Seq::<Form>::empty()
                                    .push(sym("match"@))
                                    .push(
                                        Form::List(
                                            Seq::<Form>::empty()
                                                .push(sym("insert!"@))
                                                .push(sym(store))
                                                .push(
                                                    Form::List(
                                                        Seq::<Form>::empty()
                                                            .push(sym("build"@))
                                                            .push(sym(primary))
                                                            .push(sym("input"@)),
                                                    ),
                                                ),
                                        ),
                                    )
                                    .push(
                                        Form::List(
                                            Seq::<Form>::empty()
                                                .push(sym("err"@))
                                                .push(kw("unique-violation"@)),
                                        ),
                                    )
                                    .push(
                                        Form::List(
                                            Seq::<Form>::empty()
                                                .push(sym("err"@))
                                                .push(kw("duplicate"@))
                                                .push(
                                                    plain_map(
                                                        Seq::<Form>::empty()
                                                            .push(kw("input"@))
                                                            .push(sym("input"@)),
                                                    ),
                                                ),
                                        ),
                                    )
                                    .push(
                                        Form::List(
                                            Seq::<Form>::empty()
                                                .push(sym("ok"@))
                                                .push(sym("entity"@)),
                                        ),
                                    )
                                    .push(
                                        Form::List(
                                            Seq::<Form>::empty()
                                                .push(sym("ok"@))
                                                .push(sym("entity"@)),
                                        ),
                                    ),
                            ),
                        ),
                ),
            ),
    );
    let items = e.kind->List_0;
    lemma_fits_atom(items[0], AtomView::Symbol("let"@));
    lemma_fits_vector(
        items[1],
        Seq::<Form>::empty()
            .push(sym("errors"@))
            .push(
                Form::List(
                    Seq::<Form>::empty()
                        .push(sym("validate-against"@))
                        .push(sym(primary))
                        .push(sym("input"@)),
                ),
            ),
    );
    let pairs = items[1].kind->Vector_0;
    assert forall|k: int| 0 <= k && k + 1 < pairs.len() && (k - 0) % 2
        == 0 implies sym_of(#[trigger] pairs[k]) is Some && expr_ok(pairs[k + 1]) by {
        if k == 0 {
            lemma_fits_atom(pairs[0], AtomView::Symbol("errors"@));
            write_body_plain_part2(pairs[1], store, primary);
        }
    }
    write_body_plain_part3(items[2], store, primary);
    lemma_let_ok(e);
}

/// A tree that fits the form of the body of a writing function lowers as an expression.
pub proof fn write_body_plain_lowers(e: SExprView, store: Seq<char>, primary: Seq<char>)
    requires
        fits(
            e,
            Form::List(
                Seq::<Form>::empty()
                    .push(sym("let"@))
                    .push(
                        Form::Vector(
                            Seq::<Form>::empty()
                                .push(sym("errors"@))
                                .push(
                                    Form::List(
                                        Seq::<Form>::empty()
                                            .push(sym("validate-against"@))
                                            .push(sym(primary))
                                            .push(sym("input"@)),
                                    ),
                                ),
                        ),
                    )
                    .push(
                        Form::List(
                            Seq::<Form>::empty()
                                .push(sym("if"@))
                                .push(
                                    Form::List(
                                        Seq::<Form>::empty()
                                            .push(sym("non-empty?"@))
                                            .push(sym("errors"@)),
                                    ),
                                )
                                .push(
                                    Form::List(
                                        Seq::<Form>::empty()
                                            .push(sym("err"@))
                                            .push(kw("validation-failed"@))
                                            .push(sym("errors"@)),
                                    ),
                                )
                                .push(
                                    Form::List(
                                        Seq::<Form>::empty()
                                            .push(sym("match"@))
                                            .push(
                                                Form::List(
                                                    Seq::<Form>::empty()
                                                        .push(sym("insert!"@))
                                                        .push(sym(store))
                                                        .push(
                                                            Form::List(
                                                                Seq::<Form>::empty()
                                                                    .push(sym("build"@))
                                                                    .push(sym(primary))
                                                                    .push(sym("input"@)),
                                                            ),
                                                        ),
                                                ),
                                            )
                                            .push(
                                                Form::List(
                                                    Seq::<Form>::empty()
                                                        .push(sym("err"@))
                                                        .push(kw("unique-violation"@)),
                                                ),
                                            )
                                            .push(
                                                Form::List(
                                                    Seq::<Form>::empty()
                                                        .push(sym("err"@))
                                                        .push(kw("duplicate"@))
                                                        .push(
                                                            plain_map(
                                                                Seq::<Form>::empty()
                                                                    .push(kw("input"@))
                                                                    .push(sym("input"@)),
                                                            ),
                                                        ),
                                                ),
                                            )
                                            .push(
                                                Form::List(
                                                    Seq::<Form>::empty()
                                                        .push(sym("ok"@))
                                                        .push(sym("entity"@)),
                                                ),
                                            )
                                            .push(
                                                Form::List(
                                                    Seq::<Form>::empty()
                                                        .push(sym("ok"@))
                                                        .push(sym("entity"@)),
                                                ),
                                            ),
                                    ),
                                ),
                        ),
                    ),
            ),
        ),
    ensures
        expr_ok(e),
        head_of(e) == Some("let"@),
{
    write_body_plain_part1(e, store, primary);
    lemma_fits_list(
        e,
        Seq::<Form>::empty()
            .push(sym("let"@))
            .push(
                Form::Vector(
                    Seq::<Form>::empty()
                        .push(sym("errors"@))
                        .push(
                            Form::List(
                                Seq::<Form>::empty()
                                    .push(sym("validate-against"@))
                                    .push(sym(primary))
                                    .push(sym("input"@)),
                            ),
                        ),
                ),
            )
            .push(
                Form::List(
                    Seq::<Form>::empty()
                        .push(sym("if"@))
                        .push(
                            Form::List(
                                Seq::<Form>::empty().push(sym("non-empty?"@)).push(sym("errors"@)),
                            ),
                        )
                        .push(
                            Form::List(
                                Seq::<Form>::empty()
                                    .push(sym("err"@))
                                    .push(kw("validation-failed"@))
                                    .push(sym("errors"@)),
                            ),
                        )
                        .push(
                            Form::List(
                                Seq::<Form>::empty()
                                    .push(sym("match"@))
                                    .push(
                                        Form::List(
                                            Seq::<Form>::empty()
                                                .push(sym("insert!"@))
                                                .push(sym(store))
                                                .push(
                                                    Form::List(
                                                        Seq::<Form>::empty()
                                                            .push(sym("build"@))
                                                            .push(sym(primary))
                                                            .push(sym("input"@)),
                                                    ),
                                                ),
                                        ),
                                    )
                                    .push(
                                        Form::List(
                                            Seq::<Form>::empty()
                                                .push(sym("err"@))
                                                .push(kw("unique-violation"@)),
                                        ),
                                    )
                                    .push(
                                        Form::List(
                                            Seq::<Form>::empty()
                                                .push(sym("err"@))
                                                .push(kw("duplicate"@))
                                                .push(
                                                    plain_map(
                                                        Seq::<Form>::empty()
                                                            .push(kw("input"@))
                                                            .push(sym("input"@)),
                                                    ),
                                                ),
                                        ),
                                    )
                                    .push(
                                        Form::List(
                                            Seq::<Form>::empty()
                                                .push(sym("ok"@))
                                                .push(sym("entity"@)),
                                        ),
                                    )
                                    .push(
                                        Form::List(
                                            Seq::<Form>::empty()
                                                .push(sym("ok"@))
                                                .push(sym("entity"@)),
                                        ),
                                    ),
                            ),
                        ),
                ),
            ),
    );
    lemma_fits_atom(e.kind->List_0[0], AtomView::Symbol("let"@));
}

} // verus!
