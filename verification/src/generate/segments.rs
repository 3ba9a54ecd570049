//! The forms that the pieces of generated text hold.
//!
//! The text of a generated module is written piece by piece. Each lemma
//! here follows one piece, wherever it stands in a text, and tells which
//! forms land in it; the words that come from the document are taken as
//! they are, under the condition that each is lexed as one token.

use vstd::prelude::*;
use crate::generate::pct_emitter::created;
use crate::lexer::{DurationUnit, cont_at, spec_is_symbol_start};
use crate::parser::AtomView;
use crate::reading::Form;
use crate::layout::{sym, kw, quoted, num, plain_map, lands, lemma_lands_start, lemma_lands_blank,
    lemma_holds_sub, lemma_blank_sub, lemma_blank_join, lemma_holds_join, lemma_digit_text,
    lemma_holds_split, lemma_first_char, lemma_blank_zero, lemma_holds_bounds, lemma_record_entry,
    lemma_record_done, step_record, step_symbol, step_keyword, step_int, step_duration, step_true,
    step_email_regex, step_list, step_vector, step_map};
use crate::text::dec;
use crate::words::{holds, blank, all_cont, symbol_text, keyword_text, string_text, email_pattern,
    lemma_mark, lemma_colon, lemma_symbol, lemma_string};

verus! {

proof fn word_module()
    ensures
        symbol_text("module"@),
        "module"@.len() == 6,
{
    let w = "module"@;
    reveal_strlit("module");
    assert(w[0] == 'm');
    assert(w[1] == 'o');
    assert(w[2] == 'd');
    assert(w[3] == 'u');
    assert(w[4] == 'l');
    assert(w[5] == 'e');
    assert(spec_is_symbol_start(w[0]));
    assert(all_cont(w));
    reveal_strlit("true");
    reveal_strlit("false");
}

proof fn word_provenance()
    ensures
        keyword_text("provenance"@),
        "provenance"@.len() == 10,
{
    let w = "provenance"@;
    reveal_strlit("provenance");
    assert(w[0] == 'p');
    assert(w[1] == 'r');
    assert(w[2] == 'o');
    assert(w[3] == 'v');
    assert(w[4] == 'e');
    assert(w[5] == 'n');
    assert(w[6] == 'a');
    assert(w[7] == 'n');
    assert(w[8] == 'c');
    assert(w[9] == 'e');
    assert(spec_is_symbol_start(w[0]));
    assert(all_cont(w));
}

proof fn word_req()
    ensures
        symbol_text("req"@),
        "req"@.len() == 3,
{
    let w = "req"@;
    reveal_strlit("req");
    assert(w[0] == 'r');
    assert(w[1] == 'e');
    assert(w[2] == 'q');
    assert(spec_is_symbol_start(w[0]));
    assert(all_cont(w));
    reveal_strlit("true");
    reveal_strlit("false");
}

proof fn word_author()
    ensures
        symbol_text("author"@),
        "author"@.len() == 6,
{
    let w = "author"@;
    reveal_strlit("author");
    assert(w[0] == 'a');
    assert(w[1] == 'u');
    assert(w[2] == 't');
    assert(w[3] == 'h');
    assert(w[4] == 'o');
    assert(w[5] == 'r');
    assert(spec_is_symbol_start(w[0]));
    assert(all_cont(w));
    reveal_strlit("true");
    reveal_strlit("false");
}

proof fn word_agent_pact_generate()
    ensures
        string_text("agent:pact-generate"@),
        "agent:pact-generate"@.len() == 19,
{
    let w = "agent:pact-generate"@;
    reveal_strlit("agent:pact-generate");
    assert(w[0] == 'a');
    assert(w[1] == 'g');
    assert(w[2] == 'e');
    assert(w[3] == 'n');
    assert(w[4] == 't');
    assert(w[5] == ':');
    assert(w[6] == 'p');
    assert(w[7] == 'a');
    assert(w[8] == 'c');
    assert(w[9] == 't');
    assert(w[10] == '-');
    assert(w[11] == 'g');
    assert(w[12] == 'e');
    assert(w[13] == 'n');
    assert(w[14] == 'e');
    assert(w[15] == 'r');
    assert(w[16] == 'a');
    assert(w[17] == 't');
    assert(w[18] == 'e');
}

proof fn word_created()
    ensures
        symbol_text("created"@),
        "created"@.len() == 7,
{
    let w = "created"@;
    reveal_strlit("created");
    assert(w[0] == 'c');
    assert(w[1] == 'r');
    assert(w[2] == 'e');
    assert(w[3] == 'a');
    assert(w[4] == 't');
    assert(w[5] == 'e');
    assert(w[6] == 'd');
    assert(spec_is_symbol_start(w[0]));
    assert(all_cont(w));
    reveal_strlit("true");
    reveal_strlit("false");
}

proof fn word_version()
    ensures
        keyword_text("version"@),
        "version"@.len() == 7,
{
    let w = "version"@;
    reveal_strlit("version");
    assert(w[0] == 'v');
    assert(w[1] == 'e');
    assert(w[2] == 'r');
    assert(w[3] == 's');
    assert(w[4] == 'i');
    assert(w[5] == 'o');
    assert(w[6] == 'n');
    assert(spec_is_symbol_start(w[0]));
    assert(all_cont(w));
}

proof fn word_type()
    ensures
        symbol_text("type"@),
        "type"@.len() == 4,
{
    let w = "type"@;
    reveal_strlit("type");
    assert(w[0] == 't');
    assert(w[1] == 'y');
    assert(w[2] == 'p');
    assert(w[3] == 'e');
    assert(spec_is_symbol_start(w[0]));
    assert(all_cont(w));
    reveal_strlit("true");
    reveal_strlit("false");
    assert(w[1] != "true"@[1]);
}

proof fn word_invariants()
    ensures
        keyword_text("invariants"@),
        "invariants"@.len() == 10,
{
    let w = "invariants"@;
    reveal_strlit("invariants");
    assert(w[0] == 'i');
    assert(w[1] == 'n');
    assert(w[2] == 'v');
    assert(w[3] == 'a');
    assert(w[4] == 'r');
    assert(w[5] == 'i');
    assert(w[6] == 'a');
    assert(w[7] == 'n');
    assert(w[8] == 't');
    assert(w[9] == 's');
    assert(spec_is_symbol_start(w[0]));
    assert(all_cont(w));
}

proof fn word_w3e()
    ensures
        symbol_text(">"@),
        ">"@.len() == 1,
{
    let w = ">"@;
    reveal_strlit(">");
    assert(w[0] == '>');
    assert(spec_is_symbol_start(w[0]));
    assert(all_cont(w));
    reveal_strlit("true");
    reveal_strlit("false");
}

proof fn word_strlen()
    ensures
        symbol_text("strlen"@),
        "strlen"@.len() == 6,
{
    let w = "strlen"@;
    reveal_strlit("strlen");
    assert(w[0] == 's');
    assert(w[1] == 't');
    assert(w[2] == 'r');
    assert(w[3] == 'l');
    assert(w[4] == 'e');
    assert(w[5] == 'n');
    assert(spec_is_symbol_start(w[0]));
    assert(all_cont(w));
    reveal_strlit("true");
    reveal_strlit("false");
}

proof fn word_matches()
    ensures
        symbol_text("matches"@),
        "matches"@.len() == 7,
{
    let w = "matches"@;
    reveal_strlit("matches");
    assert(w[0] == 'm');
    assert(w[1] == 'a');
    assert(w[2] == 't');
    assert(w[3] == 'c');
    assert(w[4] == 'h');
    assert(w[5] == 'e');
    assert(w[6] == 's');
    assert(spec_is_symbol_start(w[0]));
    assert(all_cont(w));
    reveal_strlit("true");
    reveal_strlit("false");
}

proof fn word_field()
    ensures
        symbol_text("field"@),
        "field"@.len() == 5,
{
    let w = "field"@;
    reveal_strlit("field");
    assert(w[0] == 'f');
    assert(w[1] == 'i');
    assert(w[2] == 'e');
    assert(w[3] == 'l');
    assert(w[4] == 'd');
    assert(spec_is_symbol_start(w[0]));
    assert(all_cont(w));
    reveal_strlit("true");
    reveal_strlit("false");
    assert(w[1] != "false"@[1]);
}

proof fn word_immutable()
    ensures
        keyword_text("immutable"@),
        "immutable"@.len() == 9,
{
    let w = "immutable"@;
    reveal_strlit("immutable");
    assert(w[0] == 'i');
    assert(w[1] == 'm');
    assert(w[2] == 'm');
    assert(w[3] == 'u');
    assert(w[4] == 't');
    assert(w[5] == 'a');
    assert(w[6] == 'b');
    assert(w[7] == 'l');
    assert(w[8] == 'e');
    assert(spec_is_symbol_start(w[0]));
    assert(all_cont(w));
}

proof fn word_generated()
    ensures
        keyword_text("generated"@),
        "generated"@.len() == 9,
{
    let w = "generated"@;
    reveal_strlit("generated");
    assert(w[0] == 'g');
    assert(w[1] == 'e');
    assert(w[2] == 'n');
    assert(w[3] == 'e');
    assert(w[4] == 'r');
    assert(w[5] == 'a');
    assert(w[6] == 't');
    assert(w[7] == 'e');
    assert(w[8] == 'd');
    assert(spec_is_symbol_start(w[0]));
    assert(all_cont(w));
}

proof fn word_min_len()
    ensures
        keyword_text("min-len"@),
        "min-len"@.len() == 7,
{
    let w = "min-len"@;
    reveal_strlit("min-len");
    assert(w[0] == 'm');
    assert(w[1] == 'i');
    assert(w[2] == 'n');
    assert(w[3] == '-');
    assert(w[4] == 'l');
    assert(w[5] == 'e');
    assert(w[6] == 'n');
    assert(spec_is_symbol_start(w[0]));
    assert(all_cont(w));
}

proof fn word_max_len()
    ensures
        keyword_text("max-len"@),
        "max-len"@.len() == 7,
{
    let w = "max-len"@;
    reveal_strlit("max-len");
    assert(w[0] == 'm');
    assert(w[1] == 'a');
    assert(w[2] == 'x');
    assert(w[3] == '-');
    assert(w[4] == 'l');
    assert(w[5] == 'e');
    assert(w[6] == 'n');
    assert(spec_is_symbol_start(w[0]));
    assert(all_cont(w));
}

proof fn word_format()
    ensures
        keyword_text("format"@),
        "format"@.len() == 6,
{
    let w = "format"@;
    reveal_strlit("format");
    assert(w[0] == 'f');
    assert(w[1] == 'o');
    assert(w[2] == 'r');
    assert(w[3] == 'm');
    assert(w[4] == 'a');
    assert(w[5] == 't');
    assert(spec_is_symbol_start(w[0]));
    assert(all_cont(w));
}

proof fn word_unique_within()
    ensures
        keyword_text("unique-within"@),
        "unique-within"@.len() == 13,
{
    let w = "unique-within"@;
    reveal_strlit("unique-within");
    assert(w[0] == 'u');
    assert(w[1] == 'n');
    assert(w[2] == 'i');
    assert(w[3] == 'q');
    assert(w[4] == 'u');
    assert(w[5] == 'e');
    assert(w[6] == '-');
    assert(w[7] == 'w');
    assert(w[8] == 'i');
    assert(w[9] == 't');
    assert(w[10] == 'h');
    assert(w[11] == 'i');
    assert(w[12] == 'n');
    assert(spec_is_symbol_start(w[0]));
    assert(all_cont(w));
}

proof fn word_effect_set()
    ensures
        symbol_text("effect-set"@),
        "effect-set"@.len() == 10,
{
    let w = "effect-set"@;
    reveal_strlit("effect-set");
    assert(w[0] == 'e');
    assert(w[1] == 'f');
    assert(w[2] == 'f');
    assert(w[3] == 'e');
    assert(w[4] == 'c');
    assert(w[5] == 't');
    assert(w[6] == '-');
    assert(w[7] == 's');
    assert(w[8] == 'e');
    assert(w[9] == 't');
    assert(spec_is_symbol_start(w[0]));
    assert(all_cont(w));
    reveal_strlit("true");
    reveal_strlit("false");
}

proof fn word_db_read()
    ensures
        symbol_text("db-read"@),
        "db-read"@.len() == 7,
{
    let w = "db-read"@;
    reveal_strlit("db-read");
    assert(w[0] == 'd');
    assert(w[1] == 'b');
    assert(w[2] == '-');
    assert(w[3] == 'r');
    assert(w[4] == 'e');
    assert(w[5] == 'a');
    assert(w[6] == 'd');
    assert(spec_is_symbol_start(w[0]));
    assert(all_cont(w));
    reveal_strlit("true");
    reveal_strlit("false");
}

proof fn word_reads()
    ensures
        keyword_text("reads"@),
        "reads"@.len() == 5,
{
    let w = "reads"@;
    reveal_strlit("reads");
    assert(w[0] == 'r');
    assert(w[1] == 'e');
    assert(w[2] == 'a');
    assert(w[3] == 'd');
    assert(w[4] == 's');
    assert(spec_is_symbol_start(w[0]));
    assert(all_cont(w));
}

proof fn word_db_write()
    ensures
        symbol_text("db-write"@),
        "db-write"@.len() == 8,
{
    let w = "db-write"@;
    reveal_strlit("db-write");
    assert(w[0] == 'd');
    assert(w[1] == 'b');
    assert(w[2] == '-');
    assert(w[3] == 'w');
    assert(w[4] == 'r');
    assert(w[5] == 'i');
    assert(w[6] == 't');
    assert(w[7] == 'e');
    assert(spec_is_symbol_start(w[0]));
    assert(all_cont(w));
    reveal_strlit("true");
    reveal_strlit("false");
}

proof fn word_writes()
    ensures
        keyword_text("writes"@),
        "writes"@.len() == 6,
{
    let w = "writes"@;
    reveal_strlit("writes");
    assert(w[0] == 'w');
    assert(w[1] == 'r');
    assert(w[2] == 'i');
    assert(w[3] == 't');
    assert(w[4] == 'e');
    assert(w[5] == 's');
    assert(spec_is_symbol_start(w[0]));
    assert(all_cont(w));
}

proof fn word_http_respond()
    ensures
        symbol_text("http-respond"@),
        "http-respond"@.len() == 12,
{
    let w = "http-respond"@;
    reveal_strlit("http-respond");
    assert(w[0] == 'h');
    assert(w[1] == 't');
    assert(w[2] == 't');
    assert(w[3] == 'p');
    assert(w[4] == '-');
    assert(w[5] == 'r');
    assert(w[6] == 'e');
    assert(w[7] == 's');
    assert(w[8] == 'p');
    assert(w[9] == 'o');
    assert(w[10] == 'n');
    assert(w[11] == 'd');
    assert(spec_is_symbol_start(w[0]));
    assert(all_cont(w));
    reveal_strlit("true");
    reveal_strlit("false");
}

proof fn word_sends()
    ensures
        keyword_text("sends"@),
        "sends"@.len() == 5,
{
    let w = "sends"@;
    reveal_strlit("sends");
    assert(w[0] == 's');
    assert(w[1] == 'e');
    assert(w[2] == 'n');
    assert(w[3] == 'd');
    assert(w[4] == 's');
    assert(spec_is_symbol_start(w[0]));
    assert(all_cont(w));
}

proof fn word_http_response()
    ensures
        symbol_text("http-response"@),
        "http-response"@.len() == 13,
{
    let w = "http-response"@;
    reveal_strlit("http-response");
    assert(w[0] == 'h');
    assert(w[1] == 't');
    assert(w[2] == 't');
    assert(w[3] == 'p');
    assert(w[4] == '-');
    assert(w[5] == 'r');
    assert(w[6] == 'e');
    assert(w[7] == 's');
    assert(w[8] == 'p');
    assert(w[9] == 'o');
    assert(w[10] == 'n');
    assert(w[11] == 's');
    assert(w[12] == 'e');
    assert(spec_is_symbol_start(w[0]));
    assert(all_cont(w));
    reveal_strlit("true");
    reveal_strlit("false");
}

proof fn word_fn()
    ensures
        symbol_text("fn"@),
        "fn"@.len() == 2,
{
    let w = "fn"@;
    reveal_strlit("fn");
    assert(w[0] == 'f');
    assert(w[1] == 'n');
    assert(spec_is_symbol_start(w[0]));
    assert(all_cont(w));
    reveal_strlit("true");
    reveal_strlit("false");
}

proof fn word_effects()
    ensures
        keyword_text("effects"@),
        "effects"@.len() == 7,
{
    let w = "effects"@;
    reveal_strlit("effects");
    assert(w[0] == 'e');
    assert(w[1] == 'f');
    assert(w[2] == 'f');
    assert(w[3] == 'e');
    assert(w[4] == 'c');
    assert(w[5] == 't');
    assert(w[6] == 's');
    assert(spec_is_symbol_start(w[0]));
    assert(all_cont(w));
}

proof fn word_total()
    ensures
        keyword_text("total"@),
        "total"@.len() == 5,
{
    let w = "total"@;
    reveal_strlit("total");
    assert(w[0] == 't');
    assert(w[1] == 'o');
    assert(w[2] == 't');
    assert(w[3] == 'a');
    assert(w[4] == 'l');
    assert(spec_is_symbol_start(w[0]));
    assert(all_cont(w));
}

proof fn word_latency_budget()
    ensures
        keyword_text("latency-budget"@),
        "latency-budget"@.len() == 14,
{
    let w = "latency-budget"@;
    reveal_strlit("latency-budget");
    assert(w[0] == 'l');
    assert(w[1] == 'a');
    assert(w[2] == 't');
    assert(w[3] == 'e');
    assert(w[4] == 'n');
    assert(w[5] == 'c');
    assert(w[6] == 'y');
    assert(w[7] == '-');
    assert(w[8] == 'b');
    assert(w[9] == 'u');
    assert(w[10] == 'd');
    assert(w[11] == 'g');
    assert(w[12] == 'e');
    assert(w[13] == 't');
    assert(spec_is_symbol_start(w[0]));
    assert(all_cont(w));
}

proof fn word_idempotency_key()
    ensures
        keyword_text("idempotency-key"@),
        "idempotency-key"@.len() == 15,
{
    let w = "idempotency-key"@;
    reveal_strlit("idempotency-key");
    assert(w[0] == 'i');
    assert(w[1] == 'd');
    assert(w[2] == 'e');
    assert(w[3] == 'm');
    assert(w[4] == 'p');
    assert(w[5] == 'o');
    assert(w[6] == 't');
    assert(w[7] == 'e');
    assert(w[8] == 'n');
    assert(w[9] == 'c');
    assert(w[10] == 'y');
    assert(w[11] == '-');
    assert(w[12] == 'k');
    assert(w[13] == 'e');
    assert(w[14] == 'y');
    assert(spec_is_symbol_start(w[0]));
    assert(all_cont(w));
}

proof fn word_hash()
    ensures
        symbol_text("hash"@),
        "hash"@.len() == 4,
{
    let w = "hash"@;
    reveal_strlit("hash");
    assert(w[0] == 'h');
    assert(w[1] == 'a');
    assert(w[2] == 's');
    assert(w[3] == 'h');
    assert(spec_is_symbol_start(w[0]));
    assert(all_cont(w));
    reveal_strlit("true");
    reveal_strlit("false");
    assert(w[0] != "true"@[0]);
}

proof fn word_w2e()
    ensures
        symbol_text("."@),
        "."@.len() == 1,
{
    let w = "."@;
    reveal_strlit(".");
    assert(w[0] == '.');
    assert(spec_is_symbol_start(w[0]));
    assert(all_cont(w));
    reveal_strlit("true");
    reveal_strlit("false");
}

proof fn word_input()
    ensures
        symbol_text("input"@),
        keyword_text("input"@),
        "input"@.len() == 5,
{
    let w = "input"@;
    reveal_strlit("input");
    assert(w[0] == 'i');
    assert(w[1] == 'n');
    assert(w[2] == 'p');
    assert(w[3] == 'u');
    assert(w[4] == 't');
    assert(spec_is_symbol_start(w[0]));
    assert(all_cont(w));
    reveal_strlit("true");
    reveal_strlit("false");
    assert(w[0] != "false"@[0]);
}

proof fn word_called_by()
    ensures
        keyword_text("called-by"@),
        "called-by"@.len() == 9,
{
    let w = "called-by"@;
    reveal_strlit("called-by");
    assert(w[0] == 'c');
    assert(w[1] == 'a');
    assert(w[2] == 'l');
    assert(w[3] == 'l');
    assert(w[4] == 'e');
    assert(w[5] == 'd');
    assert(w[6] == '-');
    assert(w[7] == 'b');
    assert(w[8] == 'y');
    assert(spec_is_symbol_start(w[0]));
    assert(all_cont(w));
}

proof fn word_param()
    ensures
        symbol_text("param"@),
        "param"@.len() == 5,
{
    let w = "param"@;
    reveal_strlit("param");
    assert(w[0] == 'p');
    assert(w[1] == 'a');
    assert(w[2] == 'r');
    assert(w[3] == 'a');
    assert(w[4] == 'm');
    assert(spec_is_symbol_start(w[0]));
    assert(all_cont(w));
    reveal_strlit("true");
    reveal_strlit("false");
    assert(w[0] != "false"@[0]);
}

proof fn word_id()
    ensures
        symbol_text("id"@),
        keyword_text("id"@),
        "id"@.len() == 2,
{
    let w = "id"@;
    reveal_strlit("id");
    assert(w[0] == 'i');
    assert(w[1] == 'd');
    assert(spec_is_symbol_start(w[0]));
    assert(all_cont(w));
    reveal_strlit("true");
    reveal_strlit("false");
}

proof fn word_uuid()
    ensures
        symbol_text("UUID"@),
        "UUID"@.len() == 4,
{
    let w = "UUID"@;
    reveal_strlit("UUID");
    assert(w[0] == 'U');
    assert(w[1] == 'U');
    assert(w[2] == 'I');
    assert(w[3] == 'D');
    assert(spec_is_symbol_start(w[0]));
    assert(all_cont(w));
    reveal_strlit("true");
    reveal_strlit("false");
    assert(w[0] != "true"@[0]);
}

proof fn word_source()
    ensures
        keyword_text("source"@),
        "source"@.len() == 6,
{
    let w = "source"@;
    reveal_strlit("source");
    assert(w[0] == 's');
    assert(w[1] == 'o');
    assert(w[2] == 'u');
    assert(w[3] == 'r');
    assert(w[4] == 'c');
    assert(w[5] == 'e');
    assert(spec_is_symbol_start(w[0]));
    assert(all_cont(w));
}

proof fn word_http_path_param()
    ensures
        symbol_text("http-path-param"@),
        "http-path-param"@.len() == 15,
{
    let w = "http-path-param"@;
    reveal_strlit("http-path-param");
    assert(w[0] == 'h');
    assert(w[1] == 't');
    assert(w[2] == 't');
    assert(w[3] == 'p');
    assert(w[4] == '-');
    assert(w[5] == 'p');
    assert(w[6] == 'a');
    assert(w[7] == 't');
    assert(w[8] == 'h');
    assert(w[9] == '-');
    assert(w[10] == 'p');
    assert(w[11] == 'a');
    assert(w[12] == 'r');
    assert(w[13] == 'a');
    assert(w[14] == 'm');
    assert(spec_is_symbol_start(w[0]));
    assert(all_cont(w));
    reveal_strlit("true");
    reveal_strlit("false");
}

proof fn word_validated_at()
    ensures
        keyword_text("validated-at"@),
        "validated-at"@.len() == 12,
{
    let w = "validated-at"@;
    reveal_strlit("validated-at");
    assert(w[0] == 'v');
    assert(w[1] == 'a');
    assert(w[2] == 'l');
    assert(w[3] == 'i');
    assert(w[4] == 'd');
    assert(w[5] == 'a');
    assert(w[6] == 't');
    assert(w[7] == 'e');
    assert(w[8] == 'd');
    assert(w[9] == '-');
    assert(w[10] == 'a');
    assert(w[11] == 't');
    assert(spec_is_symbol_start(w[0]));
    assert(all_cont(w));
}

proof fn word_boundary()
    ensures
        symbol_text("boundary"@),
        "boundary"@.len() == 8,
{
    let w = "boundary"@;
    reveal_strlit("boundary");
    assert(w[0] == 'b');
    assert(w[1] == 'o');
    assert(w[2] == 'u');
    assert(w[3] == 'n');
    assert(w[4] == 'd');
    assert(w[5] == 'a');
    assert(w[6] == 'r');
    assert(w[7] == 'y');
    assert(spec_is_symbol_start(w[0]));
    assert(all_cont(w));
    reveal_strlit("true");
    reveal_strlit("false");
}

proof fn word_http_body()
    ensures
        symbol_text("http-body"@),
        "http-body"@.len() == 9,
{
    let w = "http-body"@;
    reveal_strlit("http-body");
    assert(w[0] == 'h');
    assert(w[1] == 't');
    assert(w[2] == 't');
    assert(w[3] == 'p');
    assert(w[4] == '-');
    assert(w[5] == 'b');
    assert(w[6] == 'o');
    assert(w[7] == 'd');
    assert(w[8] == 'y');
    assert(spec_is_symbol_start(w[0]));
    assert(all_cont(w));
    reveal_strlit("true");
    reveal_strlit("false");
}

proof fn word_content_type()
    ensures
        keyword_text("content-type"@),
        "content-type"@.len() == 12,
{
    let w = "content-type"@;
    reveal_strlit("content-type");
    assert(w[0] == 'c');
    assert(w[1] == 'o');
    assert(w[2] == 'n');
    assert(w[3] == 't');
    assert(w[4] == 'e');
    assert(w[5] == 'n');
    assert(w[6] == 't');
    assert(w[7] == '-');
    assert(w[8] == 't');
    assert(w[9] == 'y');
    assert(w[10] == 'p');
    assert(w[11] == 'e');
    assert(spec_is_symbol_start(w[0]));
    assert(all_cont(w));
}

proof fn word_json()
    ensures
        keyword_text("json"@),
        "json"@.len() == 4,
{
    let w = "json"@;
    reveal_strlit("json");
    assert(w[0] == 'j');
    assert(w[1] == 's');
    assert(w[2] == 'o');
    assert(w[3] == 'n');
    assert(spec_is_symbol_start(w[0]));
    assert(all_cont(w));
}

proof fn word_returns()
    ensures
        symbol_text("returns"@),
        "returns"@.len() == 7,
{
    let w = "returns"@;
    reveal_strlit("returns");
    assert(w[0] == 'r');
    assert(w[1] == 'e');
    assert(w[2] == 't');
    assert(w[3] == 'u');
    assert(w[4] == 'r');
    assert(w[5] == 'n');
    assert(w[6] == 's');
    assert(spec_is_symbol_start(w[0]));
    assert(all_cont(w));
    reveal_strlit("true");
    reveal_strlit("false");
}

proof fn word_union()
    ensures
        symbol_text("union"@),
        "union"@.len() == 5,
{
    let w = "union"@;
    reveal_strlit("union");
    assert(w[0] == 'u');
    assert(w[1] == 'n');
    assert(w[2] == 'i');
    assert(w[3] == 'o');
    assert(w[4] == 'n');
    assert(spec_is_symbol_start(w[0]));
    assert(all_cont(w));
    reveal_strlit("true");
    reveal_strlit("false");
    assert(w[0] != "false"@[0]);
}

proof fn word_ok()
    ensures
        symbol_text("ok"@),
        "ok"@.len() == 2,
{
    let w = "ok"@;
    reveal_strlit("ok");
    assert(w[0] == 'o');
    assert(w[1] == 'k');
    assert(spec_is_symbol_start(w[0]));
    assert(all_cont(w));
    reveal_strlit("true");
    reveal_strlit("false");
}

proof fn word_http()
    ensures
        keyword_text("http"@),
        "http"@.len() == 4,
{
    let w = "http"@;
    reveal_strlit("http");
    assert(w[0] == 'h');
    assert(w[1] == 't');
    assert(w[2] == 't');
    assert(w[3] == 'p');
    assert(spec_is_symbol_start(w[0]));
    assert(all_cont(w));
}

proof fn word_serialize()
    ensures
        keyword_text("serialize"@),
        "serialize"@.len() == 9,
{
    let w = "serialize"@;
    reveal_strlit("serialize");
    assert(w[0] == 's');
    assert(w[1] == 'e');
    assert(w[2] == 'r');
    assert(w[3] == 'i');
    assert(w[4] == 'a');
    assert(w[5] == 'l');
    assert(w[6] == 'i');
    assert(w[7] == 'z');
    assert(w[8] == 'e');
    assert(spec_is_symbol_start(w[0]));
    assert(all_cont(w));
}

proof fn word_err()
    ensures
        symbol_text("err"@),
        "err"@.len() == 3,
{
    let w = "err"@;
    reveal_strlit("err");
    assert(w[0] == 'e');
    assert(w[1] == 'r');
    assert(w[2] == 'r');
    assert(spec_is_symbol_start(w[0]));
    assert(all_cont(w));
    reveal_strlit("true");
    reveal_strlit("false");
}

proof fn word_list()
    ensures
        symbol_text("list"@),
        "list"@.len() == 4,
{
    let w = "list"@;
    reveal_strlit("list");
    assert(w[0] == 'l');
    assert(w[1] == 'i');
    assert(w[2] == 's');
    assert(w[3] == 't');
    assert(spec_is_symbol_start(w[0]));
    assert(all_cont(w));
    reveal_strlit("true");
    reveal_strlit("false");
    assert(w[0] != "true"@[0]);
}

proof fn word_validationerror()
    ensures
        symbol_text("ValidationError"@),
        "ValidationError"@.len() == 15,
{
    let w = "ValidationError"@;
    reveal_strlit("ValidationError");
    assert(w[0] == 'V');
    assert(w[1] == 'a');
    assert(w[2] == 'l');
    assert(w[3] == 'i');
    assert(w[4] == 'd');
    assert(w[5] == 'a');
    assert(w[6] == 't');
    assert(w[7] == 'i');
    assert(w[8] == 'o');
    assert(w[9] == 'n');
    assert(w[10] == 'E');
    assert(w[11] == 'r');
    assert(w[12] == 'r');
    assert(w[13] == 'o');
    assert(w[14] == 'r');
    assert(spec_is_symbol_start(w[0]));
    assert(all_cont(w));
    reveal_strlit("true");
    reveal_strlit("false");
}

proof fn word_let()
    ensures
        symbol_text("let"@),
        "let"@.len() == 3,
{
    let w = "let"@;
    reveal_strlit("let");
    assert(w[0] == 'l');
    assert(w[1] == 'e');
    assert(w[2] == 't');
    assert(spec_is_symbol_start(w[0]));
    assert(all_cont(w));
    reveal_strlit("true");
    reveal_strlit("false");
}

proof fn word_validated_id()
    ensures
        symbol_text("validated-id"@),
        "validated-id"@.len() == 12,
{
    let w = "validated-id"@;
    reveal_strlit("validated-id");
    assert(w[0] == 'v');
    assert(w[1] == 'a');
    assert(w[2] == 'l');
    assert(w[3] == 'i');
    assert(w[4] == 'd');
    assert(w[5] == 'a');
    assert(w[6] == 't');
    assert(w[7] == 'e');
    assert(w[8] == 'd');
    assert(w[9] == '-');
    assert(w[10] == 'i');
    assert(w[11] == 'd');
    assert(spec_is_symbol_start(w[0]));
    assert(all_cont(w));
    reveal_strlit("true");
    reveal_strlit("false");
}

proof fn word_validate_uuid()
    ensures
        symbol_text("validate-uuid"@),
        "validate-uuid"@.len() == 13,
{
    let w = "validate-uuid"@;
    reveal_strlit("validate-uuid");
    assert(w[0] == 'v');
    assert(w[1] == 'a');
    assert(w[2] == 'l');
    assert(w[3] == 'i');
    assert(w[4] == 'd');
    assert(w[5] == 'a');
    assert(w[6] == 't');
    assert(w[7] == 'e');
    assert(w[8] == '-');
    assert(w[9] == 'u');
    assert(w[10] == 'u');
    assert(w[11] == 'i');
    assert(w[12] == 'd');
    assert(spec_is_symbol_start(w[0]));
    assert(all_cont(w));
    reveal_strlit("true");
    reveal_strlit("false");
}

proof fn word_match()
    ensures
        symbol_text("match"@),
        "match"@.len() == 5,
{
    let w = "match"@;
    reveal_strlit("match");
    assert(w[0] == 'm');
    assert(w[1] == 'a');
    assert(w[2] == 't');
    assert(w[3] == 'c');
    assert(w[4] == 'h');
    assert(spec_is_symbol_start(w[0]));
    assert(all_cont(w));
    reveal_strlit("true");
    reveal_strlit("false");
    assert(w[0] != "false"@[0]);
}

proof fn word_w5f()
    ensures
        symbol_text("_"@),
        "_"@.len() == 1,
{
    let w = "_"@;
    reveal_strlit("_");
    assert(w[0] == '_');
    assert(spec_is_symbol_start(w[0]));
    assert(all_cont(w));
    reveal_strlit("true");
    reveal_strlit("false");
}

proof fn word_invalid_id()
    ensures
        keyword_text("invalid-id"@),
        "invalid-id"@.len() == 10,
{
    let w = "invalid-id"@;
    reveal_strlit("invalid-id");
    assert(w[0] == 'i');
    assert(w[1] == 'n');
    assert(w[2] == 'v');
    assert(w[3] == 'a');
    assert(w[4] == 'l');
    assert(w[5] == 'i');
    assert(w[6] == 'd');
    assert(w[7] == '-');
    assert(w[8] == 'i');
    assert(w[9] == 'd');
    assert(spec_is_symbol_start(w[0]));
    assert(all_cont(w));
}

proof fn word_uuid2()
    ensures
        symbol_text("uuid"@),
        "uuid"@.len() == 4,
{
    let w = "uuid"@;
    reveal_strlit("uuid");
    assert(w[0] == 'u');
    assert(w[1] == 'u');
    assert(w[2] == 'i');
    assert(w[3] == 'd');
    assert(spec_is_symbol_start(w[0]));
    assert(all_cont(w));
    reveal_strlit("true");
    reveal_strlit("false");
    assert(w[0] != "true"@[0]);
}

proof fn word_query()
    ensures
        symbol_text("query"@),
        "query"@.len() == 5,
{
    let w = "query"@;
    reveal_strlit("query");
    assert(w[0] == 'q');
    assert(w[1] == 'u');
    assert(w[2] == 'e');
    assert(w[3] == 'r');
    assert(w[4] == 'y');
    assert(spec_is_symbol_start(w[0]));
    assert(all_cont(w));
    reveal_strlit("true");
    reveal_strlit("false");
    assert(w[0] != "false"@[0]);
}

proof fn word_none()
    ensures
        symbol_text("none"@),
        "none"@.len() == 4,
{
    let w = "none"@;
    reveal_strlit("none");
    assert(w[0] == 'n');
    assert(w[1] == 'o');
    assert(w[2] == 'n');
    assert(w[3] == 'e');
    assert(spec_is_symbol_start(w[0]));
    assert(all_cont(w));
    reveal_strlit("true");
    reveal_strlit("false");
    assert(w[0] != "true"@[0]);
}

proof fn word_not_found()
    ensures
        keyword_text("not-found"@),
        "not-found"@.len() == 9,
{
    let w = "not-found"@;
    reveal_strlit("not-found");
    assert(w[0] == 'n');
    assert(w[1] == 'o');
    assert(w[2] == 't');
    assert(w[3] == '-');
    assert(w[4] == 'f');
    assert(w[5] == 'o');
    assert(w[6] == 'u');
    assert(w[7] == 'n');
    assert(w[8] == 'd');
    assert(spec_is_symbol_start(w[0]));
    assert(all_cont(w));
}

proof fn word_some()
    ensures
        symbol_text("some"@),
        "some"@.len() == 4,
{
    let w = "some"@;
    reveal_strlit("some");
    assert(w[0] == 's');
    assert(w[1] == 'o');
    assert(w[2] == 'm');
    assert(w[3] == 'e');
    assert(spec_is_symbol_start(w[0]));
    assert(all_cont(w));
    reveal_strlit("true");
    reveal_strlit("false");
    assert(w[0] != "true"@[0]);
}

proof fn word_u()
    ensures
        symbol_text("u"@),
        "u"@.len() == 1,
{
    let w = "u"@;
    reveal_strlit("u");
    assert(w[0] == 'u');
    assert(spec_is_symbol_start(w[0]));
    assert(all_cont(w));
    reveal_strlit("true");
    reveal_strlit("false");
}

proof fn word_errors()
    ensures
        symbol_text("errors"@),
        "errors"@.len() == 6,
{
    let w = "errors"@;
    reveal_strlit("errors");
    assert(w[0] == 'e');
    assert(w[1] == 'r');
    assert(w[2] == 'r');
    assert(w[3] == 'o');
    assert(w[4] == 'r');
    assert(w[5] == 's');
    assert(spec_is_symbol_start(w[0]));
    assert(all_cont(w));
    reveal_strlit("true");
    reveal_strlit("false");
}

proof fn word_validate_against()
    ensures
        symbol_text("validate-against"@),
        "validate-against"@.len() == 16,
{
    let w = "validate-against"@;
    reveal_strlit("validate-against");
    assert(w[0] == 'v');
    assert(w[1] == 'a');
    assert(w[2] == 'l');
    assert(w[3] == 'i');
    assert(w[4] == 'd');
    assert(w[5] == 'a');
    assert(w[6] == 't');
    assert(w[7] == 'e');
    assert(w[8] == '-');
    assert(w[9] == 'a');
    assert(w[10] == 'g');
    assert(w[11] == 'a');
    assert(w[12] == 'i');
    assert(w[13] == 'n');
    assert(w[14] == 's');
    assert(w[15] == 't');
    assert(spec_is_symbol_start(w[0]));
    assert(all_cont(w));
    reveal_strlit("true");
    reveal_strlit("false");
}

proof fn word_if()
    ensures
        symbol_text("if"@),
        "if"@.len() == 2,
{
    let w = "if"@;
    reveal_strlit("if");
    assert(w[0] == 'i');
    assert(w[1] == 'f');
    assert(spec_is_symbol_start(w[0]));
    assert(all_cont(w));
    reveal_strlit("true");
    reveal_strlit("false");
}

proof fn word_non_empty()
    ensures
        symbol_text("non-empty?"@),
        "non-empty?"@.len() == 10,
{
    let w = "non-empty?"@;
    reveal_strlit("non-empty?");
    assert(w[0] == 'n');
    assert(w[1] == 'o');
    assert(w[2] == 'n');
    assert(w[3] == '-');
    assert(w[4] == 'e');
    assert(w[5] == 'm');
    assert(w[6] == 'p');
    assert(w[7] == 't');
    assert(w[8] == 'y');
    assert(w[9] == '?');
    assert(spec_is_symbol_start(w[0]));
    assert(all_cont(w));
    reveal_strlit("true");
    reveal_strlit("false");
}

proof fn word_validation_failed()
    ensures
        keyword_text("validation-failed"@),
        "validation-failed"@.len() == 17,
{
    let w = "validation-failed"@;
    reveal_strlit("validation-failed");
    assert(w[0] == 'v');
    assert(w[1] == 'a');
    assert(w[2] == 'l');
    assert(w[3] == 'i');
    assert(w[4] == 'd');
    assert(w[5] == 'a');
    assert(w[6] == 't');
    assert(w[7] == 'i');
    assert(w[8] == 'o');
    assert(w[9] == 'n');
    assert(w[10] == '-');
    assert(w[11] == 'f');
    assert(w[12] == 'a');
    assert(w[13] == 'i');
    assert(w[14] == 'l');
    assert(w[15] == 'e');
    assert(w[16] == 'd');
    assert(spec_is_symbol_start(w[0]));
    assert(all_cont(w));
}

proof fn word_insert()
    ensures
        symbol_text("insert!"@),
        "insert!"@.len() == 7,
{
    let w = "insert!"@;
    reveal_strlit("insert!");
    assert(w[0] == 'i');
    assert(w[1] == 'n');
    assert(w[2] == 's');
    assert(w[3] == 'e');
    assert(w[4] == 'r');
    assert(w[5] == 't');
    assert(w[6] == '!');
    assert(spec_is_symbol_start(w[0]));
    assert(all_cont(w));
    reveal_strlit("true");
    reveal_strlit("false");
}

proof fn word_build()
    ensures
        symbol_text("build"@),
        "build"@.len() == 5,
{
    let w = "build"@;
    reveal_strlit("build");
    assert(w[0] == 'b');
    assert(w[1] == 'u');
    assert(w[2] == 'i');
    assert(w[3] == 'l');
    assert(w[4] == 'd');
    assert(spec_is_symbol_start(w[0]));
    assert(all_cont(w));
    reveal_strlit("true");
    reveal_strlit("false");
    assert(w[0] != "false"@[0]);
}

proof fn word_unique_violation()
    ensures
        keyword_text("unique-violation"@),
        "unique-violation"@.len() == 16,
{
    let w = "unique-violation"@;
    reveal_strlit("unique-violation");
    assert(w[0] == 'u');
    assert(w[1] == 'n');
    assert(w[2] == 'i');
    assert(w[3] == 'q');
    assert(w[4] == 'u');
    assert(w[5] == 'e');
    assert(w[6] == '-');
    assert(w[7] == 'v');
    assert(w[8] == 'i');
    assert(w[9] == 'o');
    assert(w[10] == 'l');
    assert(w[11] == 'a');
    assert(w[12] == 't');
    assert(w[13] == 'i');
    assert(w[14] == 'o');
    assert(w[15] == 'n');
    assert(spec_is_symbol_start(w[0]));
    assert(all_cont(w));
}

proof fn word_entity()
    ensures
        symbol_text("entity"@),
        "entity"@.len() == 6,
{
    let w = "entity"@;
    reveal_strlit("entity");
    assert(w[0] == 'e');
    assert(w[1] == 'n');
    assert(w[2] == 't');
    assert(w[3] == 'i');
    assert(w[4] == 't');
    assert(w[5] == 'y');
    assert(spec_is_symbol_start(w[0]));
    assert(all_cont(w));
    reveal_strlit("true");
    reveal_strlit("false");
}

proof fn word_duplicate()
    ensures
        keyword_text("duplicate"@),
        "duplicate"@.len() == 9,
{
    let w = "duplicate"@;
    reveal_strlit("duplicate");
    assert(w[0] == 'd');
    assert(w[1] == 'u');
    assert(w[2] == 'p');
    assert(w[3] == 'l');
    assert(w[4] == 'i');
    assert(w[5] == 'c');
    assert(w[6] == 'a');
    assert(w[7] == 't');
    assert(w[8] == 'e');
    assert(spec_is_symbol_start(w[0]));
    assert(all_cont(w));
}

proof fn piece_header_0(src: Seq<char>, b: int)
    requires
        holds(src, b, "(module "@),
    ensures
        src[b + 0] == '(',
        holds(src, b + 1, "module"@),
        "module"@.len() == 6,
        !cont_at(src, b + 7),
        blank(src, b + 7, 1),
        0 <= b,
        b + 8 <= src.len(),
        "(module "@.len() == 8,
{
    reveal(holds);
    let l = "(module "@;
    reveal_strlit("(module ");
    reveal_strlit("module");
    assert(src[b + 0] == l[0]);
    assert(l.subrange(1, 7) =~= "module"@);
    lemma_holds_sub(src, b, l, 1, "module"@);
    assert(src[b + 7] == l[7]);
    lemma_blank_sub(src, b, l, 7, 1);
}

proof fn piece_header_2(src: Seq<char>, b: int)
    requires
        holds(src, b, "\n"@),
    ensures
        !cont_at(src, b + 0),
        blank(src, b + 0, 1),
        0 <= b,
        b + 1 <= src.len(),
        "\n"@.len() == 1,
{
    reveal(holds);
    let l = "\n"@;
    reveal_strlit("\n");
    assert(src[b + 0] == l[0]);
    lemma_blank_sub(src, b, l, 0, 1);
}

proof fn piece_header_3(src: Seq<char>, b: int)
    requires
        holds(src, b, "  :provenance {req: \""@),
    ensures
        blank(src, b + 0, 2),
        src[b + 2] == ':',
        holds(src, b + 3, "provenance"@),
        "provenance"@.len() == 10,
        !cont_at(src, b + 13),
        blank(src, b + 13, 1),
        src[b + 14] == '{',
        holds(src, b + 15, "req"@),
        "req"@.len() == 3,
        !cont_at(src, b + 18),
        src[b + 18] == ':',
        src[b + 19] == ' ',
        blank(src, b + 19, 1),
        src[b + 20] == '"',
        0 <= b,
        b + 21 <= src.len(),
        "  :provenance {req: \""@.len() == 21,
{
    reveal(holds);
    let l = "  :provenance {req: \""@;
    reveal_strlit("  :provenance {req: \"");
    reveal_strlit("provenance");
    reveal_strlit("req");
    lemma_blank_sub(src, b, l, 0, 2);
    assert(src[b + 2] == l[2]);
    assert(l.subrange(3, 13) =~= "provenance"@);
    lemma_holds_sub(src, b, l, 3, "provenance"@);
    assert(src[b + 13] == l[13]);
    lemma_blank_sub(src, b, l, 13, 1);
    assert(src[b + 14] == l[14]);
    assert(l.subrange(15, 18) =~= "req"@);
    lemma_holds_sub(src, b, l, 15, "req"@);
    assert(src[b + 18] == l[18]);
    assert(src[b + 18] == l[18]);
    assert(src[b + 19] == l[19]);
    lemma_blank_sub(src, b, l, 19, 1);
    assert(src[b + 20] == l[20]);
}

proof fn piece_header_5(src: Seq<char>, b: int)
    requires
        holds(src, b, "\", author: \"agent:pact-generate\", created: \""@),
    ensures
        src[b + 0] == '"',
        src[b + 1] == ',',
        blank(src, b + 2, 1),
        holds(src, b + 3, "author"@),
        "author"@.len() == 6,
        !cont_at(src, b + 9),
        src[b + 9] == ':',
        src[b + 10] == ' ',
        blank(src, b + 10, 1),
        src[b + 11] == '"',
        holds(src, b + 12, "agent:pact-generate"@),
        "agent:pact-generate"@.len() == 19,
        src[b + 31] == '"',
        src[b + 32] == ',',
        blank(src, b + 33, 1),
        holds(src, b + 34, "created"@),
        "created"@.len() == 7,
        !cont_at(src, b + 41),
        src[b + 41] == ':',
        src[b + 42] == ' ',
        blank(src, b + 42, 1),
        src[b + 43] == '"',
        0 <= b,
        b + 44 <= src.len(),
        "\", author: \"agent:pact-generate\", created: \""@.len() == 44,
{
    reveal(holds);
    let l = "\", author: \"agent:pact-generate\", created: \""@;
    reveal_strlit("\", author: \"agent:pact-generate\", created: \"");
    reveal_strlit("author");
    reveal_strlit("agent:pact-generate");
    reveal_strlit("created");
    assert(src[b + 0] == l[0]);
    assert(src[b + 1] == l[1]);
    lemma_blank_sub(src, b, l, 2, 1);
    assert(l.subrange(3, 9) =~= "author"@);
    lemma_holds_sub(src, b, l, 3, "author"@);
    assert(src[b + 9] == l[9]);
    assert(src[b + 9] == l[9]);
    assert(src[b + 10] == l[10]);
    lemma_blank_sub(src, b, l, 10, 1);
    assert(src[b + 11] == l[11]);
    assert(l.subrange(12, 31) =~= "agent:pact-generate"@);
    lemma_holds_sub(src, b, l, 12, "agent:pact-generate"@);
    assert(src[b + 31] == l[31]);
    assert(src[b + 32] == l[32]);
    lemma_blank_sub(src, b, l, 33, 1);
    assert(l.subrange(34, 41) =~= "created"@);
    lemma_holds_sub(src, b, l, 34, "created"@);
    assert(src[b + 41] == l[41]);
    assert(src[b + 41] == l[41]);
    assert(src[b + 42] == l[42]);
    lemma_blank_sub(src, b, l, 42, 1);
    assert(src[b + 43] == l[43]);
}

proof fn piece_header_7(src: Seq<char>, b: int)
    requires
        holds(src, b, "\"}"@),
    ensures
        src[b + 0] == '"',
        src[b + 1] == '}',
        0 <= b,
        b + 2 <= src.len(),
        "\"}"@.len() == 2,
{
    reveal(holds);
    let l = "\"}"@;
    reveal_strlit("\"}");
    assert(src[b + 0] == l[0]);
    assert(src[b + 1] == l[1]);
}

proof fn piece_header_8(src: Seq<char>, b: int)
    requires
        holds(src, b, "\n"@),
    ensures
        blank(src, b + 0, 1),
        0 <= b,
        b + 1 <= src.len(),
        "\n"@.len() == 1,
{
    reveal(holds);
    let l = "\n"@;
    reveal_strlit("\n");
    lemma_blank_sub(src, b, l, 0, 1);
}

proof fn piece_header_9(src: Seq<char>, b: int)
    requires
        holds(src, b, "  :version 1"@),
    ensures
        blank(src, b + 0, 2),
        src[b + 2] == ':',
        holds(src, b + 3, "version"@),
        "version"@.len() == 7,
        !cont_at(src, b + 10),
        blank(src, b + 10, 1),
        holds(src, b + 11, "1"@),
        "1"@.len() == 1,
        0 <= b,
        b + 12 <= src.len(),
        "  :version 1"@.len() == 12,
{
    reveal(holds);
    let l = "  :version 1"@;
    reveal_strlit("  :version 1");
    reveal_strlit("version");
    reveal_strlit("1");
    lemma_blank_sub(src, b, l, 0, 2);
    assert(src[b + 2] == l[2]);
    assert(l.subrange(3, 10) =~= "version"@);
    lemma_holds_sub(src, b, l, 3, "version"@);
    assert(src[b + 10] == l[10]);
    lemma_blank_sub(src, b, l, 10, 1);
    assert(l.subrange(11, 12) =~= "1"@);
    lemma_holds_sub(src, b, l, 11, "1"@);
}

proof fn piece_type_open_1(src: Seq<char>, b: int)
    requires
        holds(src, b, "  (type "@),
    ensures
        blank(src, b + 0, 2),
        src[b + 2] == '(',
        holds(src, b + 3, "type"@),
        "type"@.len() == 4,
        !cont_at(src, b + 7),
        blank(src, b + 7, 1),
        0 <= b,
        b + 8 <= src.len(),
        "  (type "@.len() == 8,
{
    reveal(holds);
    let l = "  (type "@;
    reveal_strlit("  (type ");
    reveal_strlit("type");
    lemma_blank_sub(src, b, l, 0, 2);
    assert(src[b + 2] == l[2]);
    assert(l.subrange(3, 7) =~= "type"@);
    lemma_holds_sub(src, b, l, 3, "type"@);
    assert(src[b + 7] == l[7]);
    lemma_blank_sub(src, b, l, 7, 1);
}

proof fn piece_invariants_open_0(src: Seq<char>, b: int)
    requires
        holds(src, b, "    :invariants ["@),
    ensures
        blank(src, b + 0, 4),
        src[b + 4] == ':',
        holds(src, b + 5, "invariants"@),
        "invariants"@.len() == 10,
        !cont_at(src, b + 15),
        blank(src, b + 15, 1),
        src[b + 16] == '[',
        0 <= b,
        b + 17 <= src.len(),
        "    :invariants ["@.len() == 17,
{
    reveal(holds);
    let l = "    :invariants ["@;
    reveal_strlit("    :invariants [");
    reveal_strlit("invariants");
    lemma_blank_sub(src, b, l, 0, 4);
    assert(src[b + 4] == l[4]);
    assert(l.subrange(5, 15) =~= "invariants"@);
    lemma_holds_sub(src, b, l, 5, "invariants"@);
    assert(src[b + 15] == l[15]);
    lemma_blank_sub(src, b, l, 15, 1);
    assert(src[b + 16] == l[16]);
}

proof fn piece_strlen_rule_0(src: Seq<char>, b: int)
    requires
        holds(src, b, "(> (strlen "@),
    ensures
        src[b + 0] == '(',
        holds(src, b + 1, ">"@),
        ">"@.len() == 1,
        !cont_at(src, b + 2),
        blank(src, b + 2, 1),
        src[b + 3] == '(',
        holds(src, b + 4, "strlen"@),
        "strlen"@.len() == 6,
        !cont_at(src, b + 10),
        blank(src, b + 10, 1),
        0 <= b,
        b + 11 <= src.len(),
        "(> (strlen "@.len() == 11,
{
    reveal(holds);
    let l = "(> (strlen "@;
    reveal_strlit("(> (strlen ");
    reveal_strlit(">");
    reveal_strlit("strlen");
    assert(src[b + 0] == l[0]);
    assert(l.subrange(1, 2) =~= ">"@);
    lemma_holds_sub(src, b, l, 1, ">"@);
    assert(src[b + 2] == l[2]);
    lemma_blank_sub(src, b, l, 2, 1);
    assert(src[b + 3] == l[3]);
    assert(l.subrange(4, 10) =~= "strlen"@);
    lemma_holds_sub(src, b, l, 4, "strlen"@);
    assert(src[b + 10] == l[10]);
    lemma_blank_sub(src, b, l, 10, 1);
}

proof fn piece_strlen_rule_2(src: Seq<char>, b: int)
    requires
        holds(src, b, ") 0)"@),
    ensures
        !cont_at(src, b + 0),
        src[b + 0] == ')',
        blank(src, b + 1, 1),
        holds(src, b + 2, "0"@),
        "0"@.len() == 1,
        !cont_at(src, b + 3),
        src[b + 3] == ')',
        0 <= b,
        b + 4 <= src.len(),
        ") 0)"@.len() == 4,
{
    reveal(holds);
    let l = ") 0)"@;
    reveal_strlit(") 0)");
    reveal_strlit("0");
    assert(src[b + 0] == l[0]);
    assert(src[b + 0] == l[0]);
    lemma_blank_sub(src, b, l, 1, 1);
    assert(l.subrange(2, 3) =~= "0"@);
    lemma_holds_sub(src, b, l, 2, "0"@);
    assert(src[b + 3] == l[3]);
    assert(src[b + 3] == l[3]);
}

proof fn piece_email_rule_0(src: Seq<char>, b: int)
    requires
        holds(src, b, "(matches "@),
    ensures
        src[b + 0] == '(',
        holds(src, b + 1, "matches"@),
        "matches"@.len() == 7,
        !cont_at(src, b + 8),
        blank(src, b + 8, 1),
        0 <= b,
        b + 9 <= src.len(),
        "(matches "@.len() == 9,
{
    reveal(holds);
    let l = "(matches "@;
    reveal_strlit("(matches ");
    reveal_strlit("matches");
    assert(src[b + 0] == l[0]);
    assert(l.subrange(1, 8) =~= "matches"@);
    lemma_holds_sub(src, b, l, 1, "matches"@);
    assert(src[b + 8] == l[8]);
    lemma_blank_sub(src, b, l, 8, 1);
}

proof fn piece_email_rule_2(src: Seq<char>, b: int)
    requires
        holds(src, b, " #/.+@.+\\..+/)"@),
    ensures
        !cont_at(src, b + 0),
        blank(src, b + 0, 1),
        holds(src, b + 1, "#/.+@.+\\..+/"@),
        "#/.+@.+\\..+/"@.len() == 12,
        src[b + 13] == ')',
        0 <= b,
        b + 14 <= src.len(),
        " #/.+@.+\\..+/)"@.len() == 14,
{
    reveal(holds);
    let l = " #/.+@.+\\..+/)"@;
    reveal_strlit(" #/.+@.+\\..+/)");
    reveal_strlit("#/.+@.+\\..+/");
    assert(src[b + 0] == l[0]);
    lemma_blank_sub(src, b, l, 0, 1);
    assert(l.subrange(1, 13) =~= "#/.+@.+\\..+/"@);
    lemma_holds_sub(src, b, l, 1, "#/.+@.+\\..+/"@);
    assert(src[b + 13] == l[13]);
}

proof fn piece_field_open_0(src: Seq<char>, b: int)
    requires
        holds(src, b, "    (field "@),
    ensures
        blank(src, b + 0, 4),
        src[b + 4] == '(',
        holds(src, b + 5, "field"@),
        "field"@.len() == 5,
        !cont_at(src, b + 10),
        blank(src, b + 10, 1),
        0 <= b,
        b + 11 <= src.len(),
        "    (field "@.len() == 11,
{
    reveal(holds);
    let l = "    (field "@;
    reveal_strlit("    (field ");
    reveal_strlit("field");
    lemma_blank_sub(src, b, l, 0, 4);
    assert(src[b + 4] == l[4]);
    assert(l.subrange(5, 10) =~= "field"@);
    lemma_holds_sub(src, b, l, 5, "field"@);
    assert(src[b + 10] == l[10]);
    lemma_blank_sub(src, b, l, 10, 1);
}

proof fn piece_field_open_2(src: Seq<char>, b: int)
    requires
        holds(src, b, " "@),
    ensures
        !cont_at(src, b + 0),
        blank(src, b + 0, 1),
        0 <= b,
        b + 1 <= src.len(),
        " "@.len() == 1,
{
    reveal(holds);
    let l = " "@;
    reveal_strlit(" ");
    assert(src[b + 0] == l[0]);
    lemma_blank_sub(src, b, l, 0, 1);
}

proof fn piece_flag_immutable_0(src: Seq<char>, b: int)
    requires
        holds(src, b, " :immutable"@),
    ensures
        blank(src, b + 0, 1),
        src[b + 1] == ':',
        holds(src, b + 2, "immutable"@),
        "immutable"@.len() == 9,
        0 <= b,
        b + 11 <= src.len(),
        " :immutable"@.len() == 11,
{
    reveal(holds);
    let l = " :immutable"@;
    reveal_strlit(" :immutable");
    reveal_strlit("immutable");
    lemma_blank_sub(src, b, l, 0, 1);
    assert(src[b + 1] == l[1]);
    assert(l.subrange(2, 11) =~= "immutable"@);
    lemma_holds_sub(src, b, l, 2, "immutable"@);
}

proof fn piece_flag_generated_0(src: Seq<char>, b: int)
    requires
        holds(src, b, " :generated"@),
    ensures
        blank(src, b + 0, 1),
        src[b + 1] == ':',
        holds(src, b + 2, "generated"@),
        "generated"@.len() == 9,
        0 <= b,
        b + 11 <= src.len(),
        " :generated"@.len() == 11,
{
    reveal(holds);
    let l = " :generated"@;
    reveal_strlit(" :generated");
    reveal_strlit("generated");
    lemma_blank_sub(src, b, l, 0, 1);
    assert(src[b + 1] == l[1]);
    assert(l.subrange(2, 11) =~= "generated"@);
    lemma_holds_sub(src, b, l, 2, "generated"@);
}

proof fn piece_min_len_0(src: Seq<char>, b: int)
    requires
        holds(src, b, " :min-len "@),
    ensures
        blank(src, b + 0, 1),
        src[b + 1] == ':',
        holds(src, b + 2, "min-len"@),
        "min-len"@.len() == 7,
        !cont_at(src, b + 9),
        blank(src, b + 9, 1),
        0 <= b,
        b + 10 <= src.len(),
        " :min-len "@.len() == 10,
{
    reveal(holds);
    let l = " :min-len "@;
    reveal_strlit(" :min-len ");
    reveal_strlit("min-len");
    lemma_blank_sub(src, b, l, 0, 1);
    assert(src[b + 1] == l[1]);
    assert(l.subrange(2, 9) =~= "min-len"@);
    lemma_holds_sub(src, b, l, 2, "min-len"@);
    assert(src[b + 9] == l[9]);
    lemma_blank_sub(src, b, l, 9, 1);
}

proof fn piece_max_len_0(src: Seq<char>, b: int)
    requires
        holds(src, b, " :max-len "@),
    ensures
        blank(src, b + 0, 1),
        src[b + 1] == ':',
        holds(src, b + 2, "max-len"@),
        "max-len"@.len() == 7,
        !cont_at(src, b + 9),
        blank(src, b + 9, 1),
        0 <= b,
        b + 10 <= src.len(),
        " :max-len "@.len() == 10,
{
    reveal(holds);
    let l = " :max-len "@;
    reveal_strlit(" :max-len ");
    reveal_strlit("max-len");
    lemma_blank_sub(src, b, l, 0, 1);
    assert(src[b + 1] == l[1]);
    assert(l.subrange(2, 9) =~= "max-len"@);
    lemma_holds_sub(src, b, l, 2, "max-len"@);
    assert(src[b + 9] == l[9]);
    lemma_blank_sub(src, b, l, 9, 1);
}

proof fn piece_format_0(src: Seq<char>, b: int)
    requires
        holds(src, b, " :format :"@),
    ensures
        blank(src, b + 0, 1),
        src[b + 1] == ':',
        holds(src, b + 2, "format"@),
        "format"@.len() == 6,
        !cont_at(src, b + 8),
        blank(src, b + 8, 1),
        src[b + 9] == ':',
        0 <= b,
        b + 10 <= src.len(),
        " :format :"@.len() == 10,
{
    reveal(holds);
    let l = " :format :"@;
    reveal_strlit(" :format :");
    reveal_strlit("format");
    lemma_blank_sub(src, b, l, 0, 1);
    assert(src[b + 1] == l[1]);
    assert(l.subrange(2, 8) =~= "format"@);
    lemma_holds_sub(src, b, l, 2, "format"@);
    assert(src[b + 8] == l[8]);
    lemma_blank_sub(src, b, l, 8, 1);
    assert(src[b + 9] == l[9]);
}

proof fn piece_unique_0(src: Seq<char>, b: int)
    requires
        holds(src, b, " :unique-within "@),
    ensures
        blank(src, b + 0, 1),
        src[b + 1] == ':',
        holds(src, b + 2, "unique-within"@),
        "unique-within"@.len() == 13,
        !cont_at(src, b + 15),
        blank(src, b + 15, 1),
        0 <= b,
        b + 16 <= src.len(),
        " :unique-within "@.len() == 16,
{
    reveal(holds);
    let l = " :unique-within "@;
    reveal_strlit(" :unique-within ");
    reveal_strlit("unique-within");
    lemma_blank_sub(src, b, l, 0, 1);
    assert(src[b + 1] == l[1]);
    assert(l.subrange(2, 15) =~= "unique-within"@);
    lemma_holds_sub(src, b, l, 2, "unique-within"@);
    assert(src[b + 15] == l[15]);
    lemma_blank_sub(src, b, l, 15, 1);
}

proof fn piece_read_set_1(src: Seq<char>, b: int)
    requires
        holds(src, b, "  (effect-set db-read    [:reads  "@),
    ensures
        blank(src, b + 0, 2),
        src[b + 2] == '(',
        holds(src, b + 3, "effect-set"@),
        "effect-set"@.len() == 10,
        !cont_at(src, b + 13),
        blank(src, b + 13, 1),
        holds(src, b + 14, "db-read"@),
        "db-read"@.len() == 7,
        !cont_at(src, b + 21),
        blank(src, b + 21, 4),
        src[b + 25] == '[',
        src[b + 26] == ':',
        holds(src, b + 27, "reads"@),
        "reads"@.len() == 5,
        !cont_at(src, b + 32),
        blank(src, b + 32, 2),
        0 <= b,
        b + 34 <= src.len(),
        "  (effect-set db-read    [:reads  "@.len() == 34,
{
    reveal(holds);
    let l = "  (effect-set db-read    [:reads  "@;
    reveal_strlit("  (effect-set db-read    [:reads  ");
    reveal_strlit("effect-set");
    reveal_strlit("db-read");
    reveal_strlit("reads");
    lemma_blank_sub(src, b, l, 0, 2);
    assert(src[b + 2] == l[2]);
    assert(l.subrange(3, 13) =~= "effect-set"@);
    lemma_holds_sub(src, b, l, 3, "effect-set"@);
    assert(src[b + 13] == l[13]);
    lemma_blank_sub(src, b, l, 13, 1);
    assert(l.subrange(14, 21) =~= "db-read"@);
    lemma_holds_sub(src, b, l, 14, "db-read"@);
    assert(src[b + 21] == l[21]);
    lemma_blank_sub(src, b, l, 21, 4);
    assert(src[b + 25] == l[25]);
    assert(src[b + 26] == l[26]);
    assert(l.subrange(27, 32) =~= "reads"@);
    lemma_holds_sub(src, b, l, 27, "reads"@);
    assert(src[b + 32] == l[32]);
    lemma_blank_sub(src, b, l, 32, 2);
}

proof fn piece_read_set_3(src: Seq<char>, b: int)
    requires
        holds(src, b, "])"@),
    ensures
        !cont_at(src, b + 0),
        src[b + 0] == ']',
        src[b + 1] == ')',
        0 <= b,
        b + 2 <= src.len(),
        "])"@.len() == 2,
{
    reveal(holds);
    let l = "])"@;
    reveal_strlit("])");
    assert(src[b + 0] == l[0]);
    assert(src[b + 0] == l[0]);
    assert(src[b + 1] == l[1]);
}

proof fn piece_write_set_1(src: Seq<char>, b: int)
    requires
        holds(src, b, "  (effect-set db-write   [:writes "@),
    ensures
        blank(src, b + 0, 2),
        src[b + 2] == '(',
        holds(src, b + 3, "effect-set"@),
        "effect-set"@.len() == 10,
        !cont_at(src, b + 13),
        blank(src, b + 13, 1),
        holds(src, b + 14, "db-write"@),
        "db-write"@.len() == 8,
        !cont_at(src, b + 22),
        blank(src, b + 22, 3),
        src[b + 25] == '[',
        src[b + 26] == ':',
        holds(src, b + 27, "writes"@),
        "writes"@.len() == 6,
        !cont_at(src, b + 33),
        blank(src, b + 33, 1),
        0 <= b,
        b + 34 <= src.len(),
        "  (effect-set db-write   [:writes "@.len() == 34,
{
    reveal(holds);
    let l = "  (effect-set db-write   [:writes "@;
    reveal_strlit("  (effect-set db-write   [:writes ");
    reveal_strlit("effect-set");
    reveal_strlit("db-write");
    reveal_strlit("writes");
    lemma_blank_sub(src, b, l, 0, 2);
    assert(src[b + 2] == l[2]);
    assert(l.subrange(3, 13) =~= "effect-set"@);
    lemma_holds_sub(src, b, l, 3, "effect-set"@);
    assert(src[b + 13] == l[13]);
    lemma_blank_sub(src, b, l, 13, 1);
    assert(l.subrange(14, 22) =~= "db-write"@);
    lemma_holds_sub(src, b, l, 14, "db-write"@);
    assert(src[b + 22] == l[22]);
    lemma_blank_sub(src, b, l, 22, 3);
    assert(src[b + 25] == l[25]);
    assert(src[b + 26] == l[26]);
    assert(l.subrange(27, 33) =~= "writes"@);
    lemma_holds_sub(src, b, l, 27, "writes"@);
    assert(src[b + 33] == l[33]);
    lemma_blank_sub(src, b, l, 33, 1);
}

proof fn piece_write_set_3(src: Seq<char>, b: int)
    requires
        holds(src, b, " :reads "@),
    ensures
        !cont_at(src, b + 0),
        blank(src, b + 0, 1),
        src[b + 1] == ':',
        holds(src, b + 2, "reads"@),
        "reads"@.len() == 5,
        !cont_at(src, b + 7),
        blank(src, b + 7, 1),
        0 <= b,
        b + 8 <= src.len(),
        " :reads "@.len() == 8,
{
    reveal(holds);
    let l = " :reads "@;
    reveal_strlit(" :reads ");
    reveal_strlit("reads");
    assert(src[b + 0] == l[0]);
    lemma_blank_sub(src, b, l, 0, 1);
    assert(src[b + 1] == l[1]);
    assert(l.subrange(2, 7) =~= "reads"@);
    lemma_holds_sub(src, b, l, 2, "reads"@);
    assert(src[b + 7] == l[7]);
    lemma_blank_sub(src, b, l, 7, 1);
}

proof fn piece_respond_set_1(src: Seq<char>, b: int)
    requires
        holds(src, b, "  (effect-set http-respond [:sends http-response])"@),
    ensures
        blank(src, b + 0, 2),
        src[b + 2] == '(',
        holds(src, b + 3, "effect-set"@),
        "effect-set"@.len() == 10,
        !cont_at(src, b + 13),
        blank(src, b + 13, 1),
        holds(src, b + 14, "http-respond"@),
        "http-respond"@.len() == 12,
        !cont_at(src, b + 26),
        blank(src, b + 26, 1),
        src[b + 27] == '[',
        src[b + 28] == ':',
        holds(src, b + 29, "sends"@),
        "sends"@.len() == 5,
        !cont_at(src, b + 34),
        blank(src, b + 34, 1),
        holds(src, b + 35, "http-response"@),
        "http-response"@.len() == 13,
        !cont_at(src, b + 48),
        src[b + 48] == ']',
        src[b + 49] == ')',
        0 <= b,
        b + 50 <= src.len(),
        "  (effect-set http-respond [:sends http-response])"@.len() == 50,
{
    reveal(holds);
    let l = "  (effect-set http-respond [:sends http-response])"@;
    reveal_strlit("  (effect-set http-respond [:sends http-response])");
    reveal_strlit("effect-set");
    reveal_strlit("http-respond");
    reveal_strlit("sends");
    reveal_strlit("http-response");
    lemma_blank_sub(src, b, l, 0, 2);
    assert(src[b + 2] == l[2]);
    assert(l.subrange(3, 13) =~= "effect-set"@);
    lemma_holds_sub(src, b, l, 3, "effect-set"@);
    assert(src[b + 13] == l[13]);
    lemma_blank_sub(src, b, l, 13, 1);
    assert(l.subrange(14, 26) =~= "http-respond"@);
    lemma_holds_sub(src, b, l, 14, "http-respond"@);
    assert(src[b + 26] == l[26]);
    lemma_blank_sub(src, b, l, 26, 1);
    assert(src[b + 27] == l[27]);
    assert(src[b + 28] == l[28]);
    assert(l.subrange(29, 34) =~= "sends"@);
    lemma_holds_sub(src, b, l, 29, "sends"@);
    assert(src[b + 34] == l[34]);
    lemma_blank_sub(src, b, l, 34, 1);
    assert(l.subrange(35, 48) =~= "http-response"@);
    lemma_holds_sub(src, b, l, 35, "http-response"@);
    assert(src[b + 48] == l[48]);
    assert(src[b + 48] == l[48]);
    assert(src[b + 49] == l[49]);
}

proof fn piece_fn_open_2(src: Seq<char>, b: int)
    requires
        holds(src, b, "  (fn "@),
    ensures
        blank(src, b + 0, 2),
        src[b + 2] == '(',
        holds(src, b + 3, "fn"@),
        "fn"@.len() == 2,
        !cont_at(src, b + 5),
        blank(src, b + 5, 1),
        0 <= b,
        b + 6 <= src.len(),
        "  (fn "@.len() == 6,
{
    reveal(holds);
    let l = "  (fn "@;
    reveal_strlit("  (fn ");
    reveal_strlit("fn");
    lemma_blank_sub(src, b, l, 0, 2);
    assert(src[b + 2] == l[2]);
    assert(l.subrange(3, 5) =~= "fn"@);
    lemma_holds_sub(src, b, l, 3, "fn"@);
    assert(src[b + 5] == l[5]);
    lemma_blank_sub(src, b, l, 5, 1);
}

proof fn piece_fn_open_5(src: Seq<char>, b: int)
    requires
        holds(src, b, "    :provenance {req: \""@),
    ensures
        blank(src, b + 0, 4),
        src[b + 4] == ':',
        holds(src, b + 5, "provenance"@),
        "provenance"@.len() == 10,
        !cont_at(src, b + 15),
        blank(src, b + 15, 1),
        src[b + 16] == '{',
        holds(src, b + 17, "req"@),
        "req"@.len() == 3,
        !cont_at(src, b + 20),
        src[b + 20] == ':',
        src[b + 21] == ' ',
        blank(src, b + 21, 1),
        src[b + 22] == '"',
        0 <= b,
        b + 23 <= src.len(),
        "    :provenance {req: \""@.len() == 23,
{
    reveal(holds);
    let l = "    :provenance {req: \""@;
    reveal_strlit("    :provenance {req: \"");
    reveal_strlit("provenance");
    reveal_strlit("req");
    lemma_blank_sub(src, b, l, 0, 4);
    assert(src[b + 4] == l[4]);
    assert(l.subrange(5, 15) =~= "provenance"@);
    lemma_holds_sub(src, b, l, 5, "provenance"@);
    assert(src[b + 15] == l[15]);
    lemma_blank_sub(src, b, l, 15, 1);
    assert(src[b + 16] == l[16]);
    assert(l.subrange(17, 20) =~= "req"@);
    lemma_holds_sub(src, b, l, 17, "req"@);
    assert(src[b + 20] == l[20]);
    assert(src[b + 20] == l[20]);
    assert(src[b + 21] == l[21]);
    lemma_blank_sub(src, b, l, 21, 1);
    assert(src[b + 22] == l[22]);
}

proof fn piece_fn_open_9(src: Seq<char>, b: int)
    requires
        holds(src, b, "    :effects    "@),
    ensures
        blank(src, b + 0, 4),
        src[b + 4] == ':',
        holds(src, b + 5, "effects"@),
        "effects"@.len() == 7,
        !cont_at(src, b + 12),
        blank(src, b + 12, 4),
        0 <= b,
        b + 16 <= src.len(),
        "    :effects    "@.len() == 16,
{
    reveal(holds);
    let l = "    :effects    "@;
    reveal_strlit("    :effects    ");
    reveal_strlit("effects");
    lemma_blank_sub(src, b, l, 0, 4);
    assert(src[b + 4] == l[4]);
    assert(l.subrange(5, 12) =~= "effects"@);
    lemma_holds_sub(src, b, l, 5, "effects"@);
    assert(src[b + 12] == l[12]);
    lemma_blank_sub(src, b, l, 12, 4);
}

proof fn piece_effects_write_0(src: Seq<char>, b: int)
    requires
        holds(src, b, "[db-write http-respond]"@),
    ensures
        src[b + 0] == '[',
        holds(src, b + 1, "db-write"@),
        "db-write"@.len() == 8,
        !cont_at(src, b + 9),
        blank(src, b + 9, 1),
        holds(src, b + 10, "http-respond"@),
        "http-respond"@.len() == 12,
        !cont_at(src, b + 22),
        src[b + 22] == ']',
        0 <= b,
        b + 23 <= src.len(),
        "[db-write http-respond]"@.len() == 23,
{
    reveal(holds);
    let l = "[db-write http-respond]"@;
    reveal_strlit("[db-write http-respond]");
    reveal_strlit("db-write");
    reveal_strlit("http-respond");
    assert(src[b + 0] == l[0]);
    assert(l.subrange(1, 9) =~= "db-write"@);
    lemma_holds_sub(src, b, l, 1, "db-write"@);
    assert(src[b + 9] == l[9]);
    lemma_blank_sub(src, b, l, 9, 1);
    assert(l.subrange(10, 22) =~= "http-respond"@);
    lemma_holds_sub(src, b, l, 10, "http-respond"@);
    assert(src[b + 22] == l[22]);
    assert(src[b + 22] == l[22]);
}

proof fn piece_effects_read_0(src: Seq<char>, b: int)
    requires
        holds(src, b, "[db-read http-respond]"@),
    ensures
        src[b + 0] == '[',
        holds(src, b + 1, "db-read"@),
        "db-read"@.len() == 7,
        !cont_at(src, b + 8),
        blank(src, b + 8, 1),
        holds(src, b + 9, "http-respond"@),
        "http-respond"@.len() == 12,
        !cont_at(src, b + 21),
        src[b + 21] == ']',
        0 <= b,
        b + 22 <= src.len(),
        "[db-read http-respond]"@.len() == 22,
{
    reveal(holds);
    let l = "[db-read http-respond]"@;
    reveal_strlit("[db-read http-respond]");
    reveal_strlit("db-read");
    reveal_strlit("http-respond");
    assert(src[b + 0] == l[0]);
    assert(l.subrange(1, 8) =~= "db-read"@);
    lemma_holds_sub(src, b, l, 1, "db-read"@);
    assert(src[b + 8] == l[8]);
    lemma_blank_sub(src, b, l, 8, 1);
    assert(l.subrange(9, 21) =~= "http-respond"@);
    lemma_holds_sub(src, b, l, 9, "http-respond"@);
    assert(src[b + 21] == l[21]);
    assert(src[b + 21] == l[21]);
}

proof fn piece_effects_none_0(src: Seq<char>, b: int)
    requires
        holds(src, b, "[http-respond]"@),
    ensures
        src[b + 0] == '[',
        holds(src, b + 1, "http-respond"@),
        "http-respond"@.len() == 12,
        !cont_at(src, b + 13),
        src[b + 13] == ']',
        0 <= b,
        b + 14 <= src.len(),
        "[http-respond]"@.len() == 14,
{
    reveal(holds);
    let l = "[http-respond]"@;
    reveal_strlit("[http-respond]");
    reveal_strlit("http-respond");
    assert(src[b + 0] == l[0]);
    assert(l.subrange(1, 13) =~= "http-respond"@);
    lemma_holds_sub(src, b, l, 1, "http-respond"@);
    assert(src[b + 13] == l[13]);
    assert(src[b + 13] == l[13]);
}

proof fn piece_total_0(src: Seq<char>, b: int)
    requires
        holds(src, b, "    :total      true"@),
    ensures
        blank(src, b + 0, 4),
        src[b + 4] == ':',
        holds(src, b + 5, "total"@),
        "total"@.len() == 5,
        !cont_at(src, b + 10),
        blank(src, b + 10, 6),
        holds(src, b + 16, "true"@),
        "true"@.len() == 4,
        0 <= b,
        b + 20 <= src.len(),
        "    :total      true"@.len() == 20,
{
    reveal(holds);
    let l = "    :total      true"@;
    reveal_strlit("    :total      true");
    reveal_strlit("total");
    reveal_strlit("true");
    lemma_blank_sub(src, b, l, 0, 4);
    assert(src[b + 4] == l[4]);
    assert(l.subrange(5, 10) =~= "total"@);
    lemma_holds_sub(src, b, l, 5, "total"@);
    assert(src[b + 10] == l[10]);
    lemma_blank_sub(src, b, l, 10, 6);
    assert(l.subrange(16, 20) =~= "true"@);
    lemma_holds_sub(src, b, l, 16, "true"@);
}

proof fn piece_latency_0(src: Seq<char>, b: int)
    requires
        holds(src, b, "    :latency-budget "@),
    ensures
        blank(src, b + 0, 4),
        src[b + 4] == ':',
        holds(src, b + 5, "latency-budget"@),
        "latency-budget"@.len() == 14,
        !cont_at(src, b + 19),
        blank(src, b + 19, 1),
        0 <= b,
        b + 20 <= src.len(),
        "    :latency-budget "@.len() == 20,
{
    reveal(holds);
    let l = "    :latency-budget "@;
    reveal_strlit("    :latency-budget ");
    reveal_strlit("latency-budget");
    lemma_blank_sub(src, b, l, 0, 4);
    assert(src[b + 4] == l[4]);
    assert(l.subrange(5, 19) =~= "latency-budget"@);
    lemma_holds_sub(src, b, l, 5, "latency-budget"@);
    assert(src[b + 19] == l[19]);
    lemma_blank_sub(src, b, l, 19, 1);
}

proof fn piece_idempotency_0(src: Seq<char>, b: int)
    requires
        holds(src, b, "    :idempotency-key (hash (. input "@),
    ensures
        blank(src, b + 0, 4),
        src[b + 4] == ':',
        holds(src, b + 5, "idempotency-key"@),
        "idempotency-key"@.len() == 15,
        !cont_at(src, b + 20),
        blank(src, b + 20, 1),
        src[b + 21] == '(',
        holds(src, b + 22, "hash"@),
        "hash"@.len() == 4,
        !cont_at(src, b + 26),
        blank(src, b + 26, 1),
        src[b + 27] == '(',
        holds(src, b + 28, "."@),
        "."@.len() == 1,
        !cont_at(src, b + 29),
        blank(src, b + 29, 1),
        holds(src, b + 30, "input"@),
        "input"@.len() == 5,
        !cont_at(src, b + 35),
        blank(src, b + 35, 1),
        0 <= b,
        b + 36 <= src.len(),
        "    :idempotency-key (hash (. input "@.len() == 36,
{
    reveal(holds);
    let l = "    :idempotency-key (hash (. input "@;
    reveal_strlit("    :idempotency-key (hash (. input ");
    reveal_strlit("idempotency-key");
    reveal_strlit("hash");
    reveal_strlit(".");
    reveal_strlit("input");
    lemma_blank_sub(src, b, l, 0, 4);
    assert(src[b + 4] == l[4]);
    assert(l.subrange(5, 20) =~= "idempotency-key"@);
    lemma_holds_sub(src, b, l, 5, "idempotency-key"@);
    assert(src[b + 20] == l[20]);
    lemma_blank_sub(src, b, l, 20, 1);
    assert(src[b + 21] == l[21]);
    assert(l.subrange(22, 26) =~= "hash"@);
    lemma_holds_sub(src, b, l, 22, "hash"@);
    assert(src[b + 26] == l[26]);
    lemma_blank_sub(src, b, l, 26, 1);
    assert(src[b + 27] == l[27]);
    assert(l.subrange(28, 29) =~= "."@);
    lemma_holds_sub(src, b, l, 28, "."@);
    assert(src[b + 29] == l[29]);
    lemma_blank_sub(src, b, l, 29, 1);
    assert(l.subrange(30, 35) =~= "input"@);
    lemma_holds_sub(src, b, l, 30, "input"@);
    assert(src[b + 35] == l[35]);
    lemma_blank_sub(src, b, l, 35, 1);
}

proof fn piece_idempotency_2(src: Seq<char>, b: int)
    requires
        holds(src, b, "))"@),
    ensures
        !cont_at(src, b + 0),
        src[b + 0] == ')',
        src[b + 1] == ')',
        0 <= b,
        b + 2 <= src.len(),
        "))"@.len() == 2,
{
    reveal(holds);
    let l = "))"@;
    reveal_strlit("))");
    assert(src[b + 0] == l[0]);
    assert(src[b + 0] == l[0]);
    assert(src[b + 1] == l[1]);
}

proof fn piece_called_open_0(src: Seq<char>, b: int)
    requires
        holds(src, b, "    :called-by  ["@),
    ensures
        blank(src, b + 0, 4),
        src[b + 4] == ':',
        holds(src, b + 5, "called-by"@),
        "called-by"@.len() == 9,
        !cont_at(src, b + 14),
        blank(src, b + 14, 2),
        src[b + 16] == '[',
        0 <= b,
        b + 17 <= src.len(),
        "    :called-by  ["@.len() == 17,
{
    reveal(holds);
    let l = "    :called-by  ["@;
    reveal_strlit("    :called-by  [");
    reveal_strlit("called-by");
    lemma_blank_sub(src, b, l, 0, 4);
    assert(src[b + 4] == l[4]);
    assert(l.subrange(5, 14) =~= "called-by"@);
    lemma_holds_sub(src, b, l, 5, "called-by"@);
    assert(src[b + 14] == l[14]);
    lemma_blank_sub(src, b, l, 14, 2);
    assert(src[b + 16] == l[16]);
}

proof fn piece_caller_1(src: Seq<char>, b: int)
    requires
        holds(src, b, "/handle-request"@),
    ensures
        0 <= b,
        b + 15 <= src.len(),
        "/handle-request"@.len() == 15,
{
    reveal(holds);
    let l = "/handle-request"@;
    reveal_strlit("/handle-request");
}

proof fn piece_url_param_0(src: Seq<char>, b: int)
    requires
        holds(src, b, "    (param id UUID"@),
    ensures
        blank(src, b + 0, 4),
        src[b + 4] == '(',
        holds(src, b + 5, "param"@),
        "param"@.len() == 5,
        !cont_at(src, b + 10),
        blank(src, b + 10, 1),
        holds(src, b + 11, "id"@),
        "id"@.len() == 2,
        !cont_at(src, b + 13),
        blank(src, b + 13, 1),
        holds(src, b + 14, "UUID"@),
        "UUID"@.len() == 4,
        0 <= b,
        b + 18 <= src.len(),
        "    (param id UUID"@.len() == 18,
{
    reveal(holds);
    let l = "    (param id UUID"@;
    reveal_strlit("    (param id UUID");
    reveal_strlit("param");
    reveal_strlit("id");
    reveal_strlit("UUID");
    lemma_blank_sub(src, b, l, 0, 4);
    assert(src[b + 4] == l[4]);
    assert(l.subrange(5, 10) =~= "param"@);
    lemma_holds_sub(src, b, l, 5, "param"@);
    assert(src[b + 10] == l[10]);
    lemma_blank_sub(src, b, l, 10, 1);
    assert(l.subrange(11, 13) =~= "id"@);
    lemma_holds_sub(src, b, l, 11, "id"@);
    assert(src[b + 13] == l[13]);
    lemma_blank_sub(src, b, l, 13, 1);
    assert(l.subrange(14, 18) =~= "UUID"@);
    lemma_holds_sub(src, b, l, 14, "UUID"@);
}

proof fn piece_url_param_2(src: Seq<char>, b: int)
    requires
        holds(src, b, "      :source http-path-param"@),
    ensures
        blank(src, b + 0, 6),
        src[b + 6] == ':',
        holds(src, b + 7, "source"@),
        "source"@.len() == 6,
        !cont_at(src, b + 13),
        blank(src, b + 13, 1),
        holds(src, b + 14, "http-path-param"@),
        "http-path-param"@.len() == 15,
        0 <= b,
        b + 29 <= src.len(),
        "      :source http-path-param"@.len() == 29,
{
    reveal(holds);
    let l = "      :source http-path-param"@;
    reveal_strlit("      :source http-path-param");
    reveal_strlit("source");
    reveal_strlit("http-path-param");
    lemma_blank_sub(src, b, l, 0, 6);
    assert(src[b + 6] == l[6]);
    assert(l.subrange(7, 13) =~= "source"@);
    lemma_holds_sub(src, b, l, 7, "source"@);
    assert(src[b + 13] == l[13]);
    lemma_blank_sub(src, b, l, 13, 1);
    assert(l.subrange(14, 29) =~= "http-path-param"@);
    lemma_holds_sub(src, b, l, 14, "http-path-param"@);
}

proof fn piece_url_param_4(src: Seq<char>, b: int)
    requires
        holds(src, b, "      :validated-at boundary)"@),
    ensures
        blank(src, b + 0, 6),
        src[b + 6] == ':',
        holds(src, b + 7, "validated-at"@),
        "validated-at"@.len() == 12,
        !cont_at(src, b + 19),
        blank(src, b + 19, 1),
        holds(src, b + 20, "boundary"@),
        "boundary"@.len() == 8,
        !cont_at(src, b + 28),
        src[b + 28] == ')',
        0 <= b,
        b + 29 <= src.len(),
        "      :validated-at boundary)"@.len() == 29,
{
    reveal(holds);
    let l = "      :validated-at boundary)"@;
    reveal_strlit("      :validated-at boundary)");
    reveal_strlit("validated-at");
    reveal_strlit("boundary");
    lemma_blank_sub(src, b, l, 0, 6);
    assert(src[b + 6] == l[6]);
    assert(l.subrange(7, 19) =~= "validated-at"@);
    lemma_holds_sub(src, b, l, 7, "validated-at"@);
    assert(src[b + 19] == l[19]);
    lemma_blank_sub(src, b, l, 19, 1);
    assert(l.subrange(20, 28) =~= "boundary"@);
    lemma_holds_sub(src, b, l, 20, "boundary"@);
    assert(src[b + 28] == l[28]);
    assert(src[b + 28] == l[28]);
}

proof fn piece_body_open_0(src: Seq<char>, b: int)
    requires
        holds(src, b, "    (param input "@),
    ensures
        blank(src, b + 0, 4),
        src[b + 4] == '(',
        holds(src, b + 5, "param"@),
        "param"@.len() == 5,
        !cont_at(src, b + 10),
        blank(src, b + 10, 1),
        holds(src, b + 11, "input"@),
        "input"@.len() == 5,
        !cont_at(src, b + 16),
        blank(src, b + 16, 1),
        0 <= b,
        b + 17 <= src.len(),
        "    (param input "@.len() == 17,
{
    reveal(holds);
    let l = "    (param input "@;
    reveal_strlit("    (param input ");
    reveal_strlit("param");
    reveal_strlit("input");
    lemma_blank_sub(src, b, l, 0, 4);
    assert(src[b + 4] == l[4]);
    assert(l.subrange(5, 10) =~= "param"@);
    lemma_holds_sub(src, b, l, 5, "param"@);
    assert(src[b + 10] == l[10]);
    lemma_blank_sub(src, b, l, 10, 1);
    assert(l.subrange(11, 16) =~= "input"@);
    lemma_holds_sub(src, b, l, 11, "input"@);
    assert(src[b + 16] == l[16]);
    lemma_blank_sub(src, b, l, 16, 1);
}

proof fn piece_body_open_1(src: Seq<char>, b: int)
    requires
        holds(src, b, "{"@),
    ensures
        src[b + 0] == '{',
        0 <= b,
        b + 1 <= src.len(),
        "{"@.len() == 1,
{
    reveal(holds);
    let l = "{"@;
    reveal_strlit("{");
    assert(src[b + 0] == l[0]);
}

proof fn piece_input_entry_0(src: Seq<char>, b: int)
    requires
        holds(src, b, ":"@),
    ensures
        src[b + 0] == ':',
        0 <= b,
        b + 1 <= src.len(),
        ":"@.len() == 1,
{
    reveal(holds);
    let l = ":"@;
    reveal_strlit(":");
    assert(src[b + 0] == l[0]);
}

proof fn piece_body_rest_1(src: Seq<char>, b: int)
    requires
        holds(src, b, "      :source http-body"@),
    ensures
        blank(src, b + 0, 6),
        src[b + 6] == ':',
        holds(src, b + 7, "source"@),
        "source"@.len() == 6,
        !cont_at(src, b + 13),
        blank(src, b + 13, 1),
        holds(src, b + 14, "http-body"@),
        "http-body"@.len() == 9,
        0 <= b,
        b + 23 <= src.len(),
        "      :source http-body"@.len() == 23,
{
    reveal(holds);
    let l = "      :source http-body"@;
    reveal_strlit("      :source http-body");
    reveal_strlit("source");
    reveal_strlit("http-body");
    lemma_blank_sub(src, b, l, 0, 6);
    assert(src[b + 6] == l[6]);
    assert(l.subrange(7, 13) =~= "source"@);
    lemma_holds_sub(src, b, l, 7, "source"@);
    assert(src[b + 13] == l[13]);
    lemma_blank_sub(src, b, l, 13, 1);
    assert(l.subrange(14, 23) =~= "http-body"@);
    lemma_holds_sub(src, b, l, 14, "http-body"@);
}

proof fn piece_body_rest_3(src: Seq<char>, b: int)
    requires
        holds(src, b, "      :content-type :json"@),
    ensures
        blank(src, b + 0, 6),
        src[b + 6] == ':',
        holds(src, b + 7, "content-type"@),
        "content-type"@.len() == 12,
        !cont_at(src, b + 19),
        blank(src, b + 19, 1),
        src[b + 20] == ':',
        holds(src, b + 21, "json"@),
        "json"@.len() == 4,
        0 <= b,
        b + 25 <= src.len(),
        "      :content-type :json"@.len() == 25,
{
    reveal(holds);
    let l = "      :content-type :json"@;
    reveal_strlit("      :content-type :json");
    reveal_strlit("content-type");
    reveal_strlit("json");
    lemma_blank_sub(src, b, l, 0, 6);
    assert(src[b + 6] == l[6]);
    assert(l.subrange(7, 19) =~= "content-type"@);
    lemma_holds_sub(src, b, l, 7, "content-type"@);
    assert(src[b + 19] == l[19]);
    lemma_blank_sub(src, b, l, 19, 1);
    assert(src[b + 20] == l[20]);
    assert(l.subrange(21, 25) =~= "json"@);
    lemma_holds_sub(src, b, l, 21, "json"@);
}

proof fn piece_returns_open_0(src: Seq<char>, b: int)
    requires
        holds(src, b, "    (returns (union"@),
    ensures
        blank(src, b + 0, 4),
        src[b + 4] == '(',
        holds(src, b + 5, "returns"@),
        "returns"@.len() == 7,
        !cont_at(src, b + 12),
        blank(src, b + 12, 1),
        src[b + 13] == '(',
        holds(src, b + 14, "union"@),
        "union"@.len() == 5,
        0 <= b,
        b + 19 <= src.len(),
        "    (returns (union"@.len() == 19,
{
    reveal(holds);
    let l = "    (returns (union"@;
    reveal_strlit("    (returns (union");
    reveal_strlit("returns");
    reveal_strlit("union");
    lemma_blank_sub(src, b, l, 0, 4);
    assert(src[b + 4] == l[4]);
    assert(l.subrange(5, 12) =~= "returns"@);
    lemma_holds_sub(src, b, l, 5, "returns"@);
    assert(src[b + 12] == l[12]);
    lemma_blank_sub(src, b, l, 12, 1);
    assert(src[b + 13] == l[13]);
    assert(l.subrange(14, 19) =~= "union"@);
    lemma_holds_sub(src, b, l, 14, "union"@);
}

proof fn piece_ok_open_1(src: Seq<char>, b: int)
    requires
        holds(src, b, "      (ok   "@),
    ensures
        blank(src, b + 0, 6),
        src[b + 6] == '(',
        holds(src, b + 7, "ok"@),
        "ok"@.len() == 2,
        !cont_at(src, b + 9),
        blank(src, b + 9, 3),
        0 <= b,
        b + 12 <= src.len(),
        "      (ok   "@.len() == 12,
{
    reveal(holds);
    let l = "      (ok   "@;
    reveal_strlit("      (ok   ");
    reveal_strlit("ok");
    lemma_blank_sub(src, b, l, 0, 6);
    assert(src[b + 6] == l[6]);
    assert(l.subrange(7, 9) =~= "ok"@);
    lemma_holds_sub(src, b, l, 7, "ok"@);
    assert(src[b + 9] == l[9]);
    lemma_blank_sub(src, b, l, 9, 3);
}

proof fn piece_http_0(src: Seq<char>, b: int)
    requires
        holds(src, b, " :http "@),
    ensures
        blank(src, b + 0, 1),
        src[b + 1] == ':',
        holds(src, b + 2, "http"@),
        "http"@.len() == 4,
        !cont_at(src, b + 6),
        blank(src, b + 6, 1),
        0 <= b,
        b + 7 <= src.len(),
        " :http "@.len() == 7,
{
    reveal(holds);
    let l = " :http "@;
    reveal_strlit(" :http ");
    reveal_strlit("http");
    lemma_blank_sub(src, b, l, 0, 1);
    assert(src[b + 1] == l[1]);
    assert(l.subrange(2, 6) =~= "http"@);
    lemma_holds_sub(src, b, l, 2, "http"@);
    assert(src[b + 6] == l[6]);
    lemma_blank_sub(src, b, l, 6, 1);
}

proof fn piece_serialize_0(src: Seq<char>, b: int)
    requires
        holds(src, b, "  :serialize :json)"@),
    ensures
        blank(src, b + 0, 2),
        src[b + 2] == ':',
        holds(src, b + 3, "serialize"@),
        "serialize"@.len() == 9,
        !cont_at(src, b + 12),
        blank(src, b + 12, 1),
        src[b + 13] == ':',
        holds(src, b + 14, "json"@),
        "json"@.len() == 4,
        !cont_at(src, b + 18),
        src[b + 18] == ')',
        0 <= b,
        b + 19 <= src.len(),
        "  :serialize :json)"@.len() == 19,
{
    reveal(holds);
    let l = "  :serialize :json)"@;
    reveal_strlit("  :serialize :json)");
    reveal_strlit("serialize");
    reveal_strlit("json");
    lemma_blank_sub(src, b, l, 0, 2);
    assert(src[b + 2] == l[2]);
    assert(l.subrange(3, 12) =~= "serialize"@);
    lemma_holds_sub(src, b, l, 3, "serialize"@);
    assert(src[b + 12] == l[12]);
    lemma_blank_sub(src, b, l, 12, 1);
    assert(src[b + 13] == l[13]);
    assert(l.subrange(14, 18) =~= "json"@);
    lemma_holds_sub(src, b, l, 14, "json"@);
    assert(src[b + 18] == l[18]);
    assert(src[b + 18] == l[18]);
}

proof fn piece_err_open_1(src: Seq<char>, b: int)
    requires
        holds(src, b, "      (err  :"@),
    ensures
        blank(src, b + 0, 6),
        src[b + 6] == '(',
        holds(src, b + 7, "err"@),
        "err"@.len() == 3,
        !cont_at(src, b + 10),
        blank(src, b + 10, 2),
        src[b + 12] == ':',
        0 <= b,
        b + 13 <= src.len(),
        "      (err  :"@.len() == 13,
{
    reveal(holds);
    let l = "      (err  :"@;
    reveal_strlit("      (err  :");
    reveal_strlit("err");
    lemma_blank_sub(src, b, l, 0, 6);
    assert(src[b + 6] == l[6]);
    assert(l.subrange(7, 10) =~= "err"@);
    lemma_holds_sub(src, b, l, 7, "err"@);
    assert(src[b + 10] == l[10]);
    lemma_blank_sub(src, b, l, 10, 2);
    assert(src[b + 12] == l[12]);
}

proof fn piece_payload_id_0(src: Seq<char>, b: int)
    requires
        holds(src, b, "{:id id}"@),
    ensures
        src[b + 0] == '{',
        src[b + 1] == ':',
        holds(src, b + 2, "id"@),
        "id"@.len() == 2,
        !cont_at(src, b + 4),
        blank(src, b + 4, 1),
        holds(src, b + 5, "id"@),
        "id"@.len() == 2,
        !cont_at(src, b + 7),
        src[b + 7] == '}',
        0 <= b,
        b + 8 <= src.len(),
        "{:id id}"@.len() == 8,
{
    reveal(holds);
    let l = "{:id id}"@;
    reveal_strlit("{:id id}");
    reveal_strlit("id");
    assert(src[b + 0] == l[0]);
    assert(src[b + 1] == l[1]);
    assert(l.subrange(2, 4) =~= "id"@);
    lemma_holds_sub(src, b, l, 2, "id"@);
    assert(src[b + 4] == l[4]);
    lemma_blank_sub(src, b, l, 4, 1);
    assert(l.subrange(5, 7) =~= "id"@);
    lemma_holds_sub(src, b, l, 5, "id"@);
    assert(src[b + 7] == l[7]);
    assert(src[b + 7] == l[7]);
}

proof fn piece_payload_field_0(src: Seq<char>, b: int)
    requires
        holds(src, b, "{:"@),
    ensures
        src[b + 0] == '{',
        src[b + 1] == ':',
        0 <= b,
        b + 2 <= src.len(),
        "{:"@.len() == 2,
{
    reveal(holds);
    let l = "{:"@;
    reveal_strlit("{:");
    assert(src[b + 0] == l[0]);
    assert(src[b + 1] == l[1]);
}

proof fn piece_payload_field_2(src: Seq<char>, b: int)
    requires
        holds(src, b, " (. input "@),
    ensures
        !cont_at(src, b + 0),
        blank(src, b + 0, 1),
        src[b + 1] == '(',
        holds(src, b + 2, "."@),
        "."@.len() == 1,
        !cont_at(src, b + 3),
        blank(src, b + 3, 1),
        holds(src, b + 4, "input"@),
        "input"@.len() == 5,
        !cont_at(src, b + 9),
        blank(src, b + 9, 1),
        0 <= b,
        b + 10 <= src.len(),
        " (. input "@.len() == 10,
{
    reveal(holds);
    let l = " (. input "@;
    reveal_strlit(" (. input ");
    reveal_strlit(".");
    reveal_strlit("input");
    assert(src[b + 0] == l[0]);
    lemma_blank_sub(src, b, l, 0, 1);
    assert(src[b + 1] == l[1]);
    assert(l.subrange(2, 3) =~= "."@);
    lemma_holds_sub(src, b, l, 2, "."@);
    assert(src[b + 3] == l[3]);
    lemma_blank_sub(src, b, l, 3, 1);
    assert(l.subrange(4, 9) =~= "input"@);
    lemma_holds_sub(src, b, l, 4, "input"@);
    assert(src[b + 9] == l[9]);
    lemma_blank_sub(src, b, l, 9, 1);
}

proof fn piece_payload_field_4(src: Seq<char>, b: int)
    requires
        holds(src, b, ")}"@),
    ensures
        !cont_at(src, b + 0),
        src[b + 0] == ')',
        src[b + 1] == '}',
        0 <= b,
        b + 2 <= src.len(),
        ")}"@.len() == 2,
{
    reveal(holds);
    let l = ")}"@;
    reveal_strlit(")}");
    assert(src[b + 0] == l[0]);
    assert(src[b + 0] == l[0]);
    assert(src[b + 1] == l[1]);
}

proof fn piece_payload_errors_0(src: Seq<char>, b: int)
    requires
        holds(src, b, "(list ValidationError)"@),
    ensures
        src[b + 0] == '(',
        holds(src, b + 1, "list"@),
        "list"@.len() == 4,
        !cont_at(src, b + 5),
        blank(src, b + 5, 1),
        holds(src, b + 6, "ValidationError"@),
        "ValidationError"@.len() == 15,
        !cont_at(src, b + 21),
        src[b + 21] == ')',
        0 <= b,
        b + 22 <= src.len(),
        "(list ValidationError)"@.len() == 22,
{
    reveal(holds);
    let l = "(list ValidationError)"@;
    reveal_strlit("(list ValidationError)");
    reveal_strlit("list");
    reveal_strlit("ValidationError");
    assert(src[b + 0] == l[0]);
    assert(l.subrange(1, 5) =~= "list"@);
    lemma_holds_sub(src, b, l, 1, "list"@);
    assert(src[b + 5] == l[5]);
    lemma_blank_sub(src, b, l, 5, 1);
    assert(l.subrange(6, 21) =~= "ValidationError"@);
    lemma_holds_sub(src, b, l, 6, "ValidationError"@);
    assert(src[b + 21] == l[21]);
    assert(src[b + 21] == l[21]);
}

proof fn piece_payload_none_0(src: Seq<char>, b: int)
    requires
        holds(src, b, "{}"@),
    ensures
        src[b + 0] == '{',
        src[b + 1] == '}',
        0 <= b,
        b + 2 <= src.len(),
        "{}"@.len() == 2,
{
    reveal(holds);
    let l = "{}"@;
    reveal_strlit("{}");
    assert(src[b + 0] == l[0]);
    assert(src[b + 1] == l[1]);
}

proof fn piece_read_body_0(src: Seq<char>, b: int)
    requires
        holds(src, b, "    (let [validated-id (validate-uuid id)]"@),
    ensures
        blank(src, b + 0, 4),
        src[b + 4] == '(',
        holds(src, b + 5, "let"@),
        "let"@.len() == 3,
        !cont_at(src, b + 8),
        blank(src, b + 8, 1),
        src[b + 9] == '[',
        holds(src, b + 10, "validated-id"@),
        "validated-id"@.len() == 12,
        !cont_at(src, b + 22),
        blank(src, b + 22, 1),
        src[b + 23] == '(',
        holds(src, b + 24, "validate-uuid"@),
        "validate-uuid"@.len() == 13,
        !cont_at(src, b + 37),
        blank(src, b + 37, 1),
        holds(src, b + 38, "id"@),
        "id"@.len() == 2,
        !cont_at(src, b + 40),
        src[b + 40] == ')',
        src[b + 41] == ']',
        0 <= b,
        b + 42 <= src.len(),
        "    (let [validated-id (validate-uuid id)]"@.len() == 42,
{
    reveal(holds);
    let l = "    (let [validated-id (validate-uuid id)]"@;
    reveal_strlit("    (let [validated-id (validate-uuid id)]");
    reveal_strlit("let");
    reveal_strlit("validated-id");
    reveal_strlit("validate-uuid");
    reveal_strlit("id");
    lemma_blank_sub(src, b, l, 0, 4);
    assert(src[b + 4] == l[4]);
    assert(l.subrange(5, 8) =~= "let"@);
    lemma_holds_sub(src, b, l, 5, "let"@);
    assert(src[b + 8] == l[8]);
    lemma_blank_sub(src, b, l, 8, 1);
    assert(src[b + 9] == l[9]);
    assert(l.subrange(10, 22) =~= "validated-id"@);
    lemma_holds_sub(src, b, l, 10, "validated-id"@);
    assert(src[b + 22] == l[22]);
    lemma_blank_sub(src, b, l, 22, 1);
    assert(src[b + 23] == l[23]);
    assert(l.subrange(24, 37) =~= "validate-uuid"@);
    lemma_holds_sub(src, b, l, 24, "validate-uuid"@);
    assert(src[b + 37] == l[37]);
    lemma_blank_sub(src, b, l, 37, 1);
    assert(l.subrange(38, 40) =~= "id"@);
    lemma_holds_sub(src, b, l, 38, "id"@);
    assert(src[b + 40] == l[40]);
    assert(src[b + 40] == l[40]);
    assert(src[b + 41] == l[41]);
}

proof fn piece_read_body_2(src: Seq<char>, b: int)
    requires
        holds(src, b, "      (match validated-id"@),
    ensures
        blank(src, b + 0, 6),
        src[b + 6] == '(',
        holds(src, b + 7, "match"@),
        "match"@.len() == 5,
        !cont_at(src, b + 12),
        blank(src, b + 12, 1),
        holds(src, b + 13, "validated-id"@),
        "validated-id"@.len() == 12,
        0 <= b,
        b + 25 <= src.len(),
        "      (match validated-id"@.len() == 25,
{
    reveal(holds);
    let l = "      (match validated-id"@;
    reveal_strlit("      (match validated-id");
    reveal_strlit("match");
    reveal_strlit("validated-id");
    lemma_blank_sub(src, b, l, 0, 6);
    assert(src[b + 6] == l[6]);
    assert(l.subrange(7, 12) =~= "match"@);
    lemma_holds_sub(src, b, l, 7, "match"@);
    assert(src[b + 12] == l[12]);
    lemma_blank_sub(src, b, l, 12, 1);
    assert(l.subrange(13, 25) =~= "validated-id"@);
    lemma_holds_sub(src, b, l, 13, "validated-id"@);
}

proof fn piece_read_body_4(src: Seq<char>, b: int)
    requires
        holds(src, b, "        (err _)    (err :invalid-id {:id id})"@),
    ensures
        blank(src, b + 0, 8),
        src[b + 8] == '(',
        holds(src, b + 9, "err"@),
        "err"@.len() == 3,
        !cont_at(src, b + 12),
        blank(src, b + 12, 1),
        holds(src, b + 13, "_"@),
        "_"@.len() == 1,
        !cont_at(src, b + 14),
        src[b + 14] == ')',
        blank(src, b + 15, 4),
        src[b + 19] == '(',
        holds(src, b + 20, "err"@),
        "err"@.len() == 3,
        !cont_at(src, b + 23),
        blank(src, b + 23, 1),
        src[b + 24] == ':',
        holds(src, b + 25, "invalid-id"@),
        "invalid-id"@.len() == 10,
        !cont_at(src, b + 35),
        blank(src, b + 35, 1),
        src[b + 36] == '{',
        src[b + 37] == ':',
        holds(src, b + 38, "id"@),
        "id"@.len() == 2,
        !cont_at(src, b + 40),
        blank(src, b + 40, 1),
        holds(src, b + 41, "id"@),
        "id"@.len() == 2,
        !cont_at(src, b + 43),
        src[b + 43] == '}',
        src[b + 44] == ')',
        0 <= b,
        b + 45 <= src.len(),
        "        (err _)    (err :invalid-id {:id id})"@.len() == 45,
{
    reveal(holds);
    let l = "        (err _)    (err :invalid-id {:id id})"@;
    reveal_strlit("        (err _)    (err :invalid-id {:id id})");
    reveal_strlit("err");
    reveal_strlit("_");
    reveal_strlit("invalid-id");
    reveal_strlit("id");
    lemma_blank_sub(src, b, l, 0, 8);
    assert(src[b + 8] == l[8]);
    assert(l.subrange(9, 12) =~= "err"@);
    lemma_holds_sub(src, b, l, 9, "err"@);
    assert(src[b + 12] == l[12]);
    lemma_blank_sub(src, b, l, 12, 1);
    assert(l.subrange(13, 14) =~= "_"@);
    lemma_holds_sub(src, b, l, 13, "_"@);
    assert(src[b + 14] == l[14]);
    assert(src[b + 14] == l[14]);
    lemma_blank_sub(src, b, l, 15, 4);
    assert(src[b + 19] == l[19]);
    assert(l.subrange(20, 23) =~= "err"@);
    lemma_holds_sub(src, b, l, 20, "err"@);
    assert(src[b + 23] == l[23]);
    lemma_blank_sub(src, b, l, 23, 1);
    assert(src[b + 24] == l[24]);
    assert(l.subrange(25, 35) =~= "invalid-id"@);
    lemma_holds_sub(src, b, l, 25, "invalid-id"@);
    assert(src[b + 35] == l[35]);
    lemma_blank_sub(src, b, l, 35, 1);
    assert(src[b + 36] == l[36]);
    assert(src[b + 37] == l[37]);
    assert(l.subrange(38, 40) =~= "id"@);
    lemma_holds_sub(src, b, l, 38, "id"@);
    assert(src[b + 40] == l[40]);
    lemma_blank_sub(src, b, l, 40, 1);
    assert(l.subrange(41, 43) =~= "id"@);
    lemma_holds_sub(src, b, l, 41, "id"@);
    assert(src[b + 43] == l[43]);
    assert(src[b + 43] == l[43]);
    assert(src[b + 44] == l[44]);
}

proof fn piece_read_body_6(src: Seq<char>, b: int)
    requires
        holds(src, b, "        (ok  uuid) (match (query "@),
    ensures
        blank(src, b + 0, 8),
        src[b + 8] == '(',
        holds(src, b + 9, "ok"@),
        "ok"@.len() == 2,
        !cont_at(src, b + 11),
        blank(src, b + 11, 2),
        holds(src, b + 13, "uuid"@),
        "uuid"@.len() == 4,
        !cont_at(src, b + 17),
        src[b + 17] == ')',
        blank(src, b + 18, 1),
        src[b + 19] == '(',
        holds(src, b + 20, "match"@),
        "match"@.len() == 5,
        !cont_at(src, b + 25),
        blank(src, b + 25, 1),
        src[b + 26] == '(',
        holds(src, b + 27, "query"@),
        "query"@.len() == 5,
        !cont_at(src, b + 32),
        blank(src, b + 32, 1),
        0 <= b,
        b + 33 <= src.len(),
        "        (ok  uuid) (match (query "@.len() == 33,
{
    reveal(holds);
    let l = "        (ok  uuid) (match (query "@;
    reveal_strlit("        (ok  uuid) (match (query ");
    reveal_strlit("ok");
    reveal_strlit("uuid");
    reveal_strlit("match");
    reveal_strlit("query");
    lemma_blank_sub(src, b, l, 0, 8);
    assert(src[b + 8] == l[8]);
    assert(l.subrange(9, 11) =~= "ok"@);
    lemma_holds_sub(src, b, l, 9, "ok"@);
    assert(src[b + 11] == l[11]);
    lemma_blank_sub(src, b, l, 11, 2);
    assert(l.subrange(13, 17) =~= "uuid"@);
    lemma_holds_sub(src, b, l, 13, "uuid"@);
    assert(src[b + 17] == l[17]);
    assert(src[b + 17] == l[17]);
    lemma_blank_sub(src, b, l, 18, 1);
    assert(src[b + 19] == l[19]);
    assert(l.subrange(20, 25) =~= "match"@);
    lemma_holds_sub(src, b, l, 20, "match"@);
    assert(src[b + 25] == l[25]);
    lemma_blank_sub(src, b, l, 25, 1);
    assert(src[b + 26] == l[26]);
    assert(l.subrange(27, 32) =~= "query"@);
    lemma_holds_sub(src, b, l, 27, "query"@);
    assert(src[b + 32] == l[32]);
    lemma_blank_sub(src, b, l, 32, 1);
}

proof fn piece_read_body_8(src: Seq<char>, b: int)
    requires
        holds(src, b, " {:id uuid})"@),
    ensures
        !cont_at(src, b + 0),
        blank(src, b + 0, 1),
        src[b + 1] == '{',
        src[b + 2] == ':',
        holds(src, b + 3, "id"@),
        "id"@.len() == 2,
        !cont_at(src, b + 5),
        blank(src, b + 5, 1),
        holds(src, b + 6, "uuid"@),
        "uuid"@.len() == 4,
        !cont_at(src, b + 10),
        src[b + 10] == '}',
        src[b + 11] == ')',
        0 <= b,
        b + 12 <= src.len(),
        " {:id uuid})"@.len() == 12,
{
    reveal(holds);
    let l = " {:id uuid})"@;
    reveal_strlit(" {:id uuid})");
    reveal_strlit("id");
    reveal_strlit("uuid");
    assert(src[b + 0] == l[0]);
    lemma_blank_sub(src, b, l, 0, 1);
    assert(src[b + 1] == l[1]);
    assert(src[b + 2] == l[2]);
    assert(l.subrange(3, 5) =~= "id"@);
    lemma_holds_sub(src, b, l, 3, "id"@);
    assert(src[b + 5] == l[5]);
    lemma_blank_sub(src, b, l, 5, 1);
    assert(l.subrange(6, 10) =~= "uuid"@);
    lemma_holds_sub(src, b, l, 6, "uuid"@);
    assert(src[b + 10] == l[10]);
    assert(src[b + 10] == l[10]);
    assert(src[b + 11] == l[11]);
}

proof fn piece_read_body_10(src: Seq<char>, b: int)
    requires
        holds(src, b, "          (none)   (err :not-found {:id uuid})"@),
    ensures
        blank(src, b + 0, 10),
        src[b + 10] == '(',
        holds(src, b + 11, "none"@),
        "none"@.len() == 4,
        !cont_at(src, b + 15),
        src[b + 15] == ')',
        blank(src, b + 16, 3),
        src[b + 19] == '(',
        holds(src, b + 20, "err"@),
        "err"@.len() == 3,
        !cont_at(src, b + 23),
        blank(src, b + 23, 1),
        src[b + 24] == ':',
        holds(src, b + 25, "not-found"@),
        "not-found"@.len() == 9,
        !cont_at(src, b + 34),
        blank(src, b + 34, 1),
        src[b + 35] == '{',
        src[b + 36] == ':',
        holds(src, b + 37, "id"@),
        "id"@.len() == 2,
        !cont_at(src, b + 39),
        blank(src, b + 39, 1),
        holds(src, b + 40, "uuid"@),
        "uuid"@.len() == 4,
        !cont_at(src, b + 44),
        src[b + 44] == '}',
        src[b + 45] == ')',
        0 <= b,
        b + 46 <= src.len(),
        "          (none)   (err :not-found {:id uuid})"@.len() == 46,
{
    reveal(holds);
    let l = "          (none)   (err :not-found {:id uuid})"@;
    reveal_strlit("          (none)   (err :not-found {:id uuid})");
    reveal_strlit("none");
    reveal_strlit("err");
    reveal_strlit("not-found");
    reveal_strlit("id");
    reveal_strlit("uuid");
    lemma_blank_sub(src, b, l, 0, 10);
    assert(src[b + 10] == l[10]);
    assert(l.subrange(11, 15) =~= "none"@);
    lemma_holds_sub(src, b, l, 11, "none"@);
    assert(src[b + 15] == l[15]);
    assert(src[b + 15] == l[15]);
    lemma_blank_sub(src, b, l, 16, 3);
    assert(src[b + 19] == l[19]);
    assert(l.subrange(20, 23) =~= "err"@);
    lemma_holds_sub(src, b, l, 20, "err"@);
    assert(src[b + 23] == l[23]);
    lemma_blank_sub(src, b, l, 23, 1);
    assert(src[b + 24] == l[24]);
    assert(l.subrange(25, 34) =~= "not-found"@);
    lemma_holds_sub(src, b, l, 25, "not-found"@);
    assert(src[b + 34] == l[34]);
    lemma_blank_sub(src, b, l, 34, 1);
    assert(src[b + 35] == l[35]);
    assert(src[b + 36] == l[36]);
    assert(l.subrange(37, 39) =~= "id"@);
    lemma_holds_sub(src, b, l, 37, "id"@);
    assert(src[b + 39] == l[39]);
    lemma_blank_sub(src, b, l, 39, 1);
    assert(l.subrange(40, 44) =~= "uuid"@);
    lemma_holds_sub(src, b, l, 40, "uuid"@);
    assert(src[b + 44] == l[44]);
    assert(src[b + 44] == l[44]);
    assert(src[b + 45] == l[45]);
}

proof fn piece_read_body_12(src: Seq<char>, b: int)
    requires
        holds(src, b, "          (some u) (ok u))))"@),
    ensures
        blank(src, b + 0, 10),
        src[b + 10] == '(',
        holds(src, b + 11, "some"@),
        "some"@.len() == 4,
        !cont_at(src, b + 15),
        blank(src, b + 15, 1),
        holds(src, b + 16, "u"@),
        "u"@.len() == 1,
        !cont_at(src, b + 17),
        src[b + 17] == ')',
        blank(src, b + 18, 1),
        src[b + 19] == '(',
        holds(src, b + 20, "ok"@),
        "ok"@.len() == 2,
        !cont_at(src, b + 22),
        blank(src, b + 22, 1),
        holds(src, b + 23, "u"@),
        "u"@.len() == 1,
        !cont_at(src, b + 24),
        src[b + 24] == ')',
        src[b + 25] == ')',
        src[b + 26] == ')',
        src[b + 27] == ')',
        0 <= b,
        b + 28 <= src.len(),
        "          (some u) (ok u))))"@.len() == 28,
{
    reveal(holds);
    let l = "          (some u) (ok u))))"@;
    reveal_strlit("          (some u) (ok u))))");
    reveal_strlit("some");
    reveal_strlit("u");
    reveal_strlit("ok");
    lemma_blank_sub(src, b, l, 0, 10);
    assert(src[b + 10] == l[10]);
    assert(l.subrange(11, 15) =~= "some"@);
    lemma_holds_sub(src, b, l, 11, "some"@);
    assert(src[b + 15] == l[15]);
    lemma_blank_sub(src, b, l, 15, 1);
    assert(l.subrange(16, 17) =~= "u"@);
    lemma_holds_sub(src, b, l, 16, "u"@);
    assert(src[b + 17] == l[17]);
    assert(src[b + 17] == l[17]);
    lemma_blank_sub(src, b, l, 18, 1);
    assert(src[b + 19] == l[19]);
    assert(l.subrange(20, 22) =~= "ok"@);
    lemma_holds_sub(src, b, l, 20, "ok"@);
    assert(src[b + 22] == l[22]);
    lemma_blank_sub(src, b, l, 22, 1);
    assert(l.subrange(23, 24) =~= "u"@);
    lemma_holds_sub(src, b, l, 23, "u"@);
    assert(src[b + 24] == l[24]);
    assert(src[b + 24] == l[24]);
    assert(src[b + 25] == l[25]);
    assert(src[b + 26] == l[26]);
    assert(src[b + 27] == l[27]);
}

proof fn piece_write_body_field_0(src: Seq<char>, b: int)
    requires
        holds(src, b, "    (let [errors (validate-against "@),
    ensures
        blank(src, b + 0, 4),
        src[b + 4] == '(',
        holds(src, b + 5, "let"@),
        "let"@.len() == 3,
        !cont_at(src, b + 8),
        blank(src, b + 8, 1),
        src[b + 9] == '[',
        holds(src, b + 10, "errors"@),
        "errors"@.len() == 6,
        !cont_at(src, b + 16),
        blank(src, b + 16, 1),
        src[b + 17] == '(',
        holds(src, b + 18, "validate-against"@),
        "validate-against"@.len() == 16,
        !cont_at(src, b + 34),
        blank(src, b + 34, 1),
        0 <= b,
        b + 35 <= src.len(),
        "    (let [errors (validate-against "@.len() == 35,
{
    reveal(holds);
    let l = "    (let [errors (validate-against "@;
    reveal_strlit("    (let [errors (validate-against ");
    reveal_strlit("let");
    reveal_strlit("errors");
    reveal_strlit("validate-against");
    lemma_blank_sub(src, b, l, 0, 4);
    assert(src[b + 4] == l[4]);
    assert(l.subrange(5, 8) =~= "let"@);
    lemma_holds_sub(src, b, l, 5, "let"@);
    assert(src[b + 8] == l[8]);
    lemma_blank_sub(src, b, l, 8, 1);
    assert(src[b + 9] == l[9]);
    assert(l.subrange(10, 16) =~= "errors"@);
    lemma_holds_sub(src, b, l, 10, "errors"@);
    assert(src[b + 16] == l[16]);
    lemma_blank_sub(src, b, l, 16, 1);
    assert(src[b + 17] == l[17]);
    assert(l.subrange(18, 34) =~= "validate-against"@);
    lemma_holds_sub(src, b, l, 18, "validate-against"@);
    assert(src[b + 34] == l[34]);
    lemma_blank_sub(src, b, l, 34, 1);
}

proof fn piece_write_body_field_2(src: Seq<char>, b: int)
    requires
        holds(src, b, " input)]"@),
    ensures
        !cont_at(src, b + 0),
        blank(src, b + 0, 1),
        holds(src, b + 1, "input"@),
        "input"@.len() == 5,
        !cont_at(src, b + 6),
        src[b + 6] == ')',
        src[b + 7] == ']',
        0 <= b,
        b + 8 <= src.len(),
        " input)]"@.len() == 8,
{
    reveal(holds);
    let l = " input)]"@;
    reveal_strlit(" input)]");
    reveal_strlit("input");
    assert(src[b + 0] == l[0]);
    lemma_blank_sub(src, b, l, 0, 1);
    assert(l.subrange(1, 6) =~= "input"@);
    lemma_holds_sub(src, b, l, 1, "input"@);
    assert(src[b + 6] == l[6]);
    assert(src[b + 6] == l[6]);
    assert(src[b + 7] == l[7]);
}

proof fn piece_write_body_field_4(src: Seq<char>, b: int)
    requires
        holds(src, b, "      (if (non-empty? errors)"@),
    ensures
        blank(src, b + 0, 6),
        src[b + 6] == '(',
        holds(src, b + 7, "if"@),
        "if"@.len() == 2,
        !cont_at(src, b + 9),
        blank(src, b + 9, 1),
        src[b + 10] == '(',
        holds(src, b + 11, "non-empty?"@),
        "non-empty?"@.len() == 10,
        !cont_at(src, b + 21),
        blank(src, b + 21, 1),
        holds(src, b + 22, "errors"@),
        "errors"@.len() == 6,
        !cont_at(src, b + 28),
        src[b + 28] == ')',
        0 <= b,
        b + 29 <= src.len(),
        "      (if (non-empty? errors)"@.len() == 29,
{
    reveal(holds);
    let l = "      (if (non-empty? errors)"@;
    reveal_strlit("      (if (non-empty? errors)");
    reveal_strlit("if");
    reveal_strlit("non-empty?");
    reveal_strlit("errors");
    lemma_blank_sub(src, b, l, 0, 6);
    assert(src[b + 6] == l[6]);
    assert(l.subrange(7, 9) =~= "if"@);
    lemma_holds_sub(src, b, l, 7, "if"@);
    assert(src[b + 9] == l[9]);
    lemma_blank_sub(src, b, l, 9, 1);
    assert(src[b + 10] == l[10]);
    assert(l.subrange(11, 21) =~= "non-empty?"@);
    lemma_holds_sub(src, b, l, 11, "non-empty?"@);
    assert(src[b + 21] == l[21]);
    lemma_blank_sub(src, b, l, 21, 1);
    assert(l.subrange(22, 28) =~= "errors"@);
    lemma_holds_sub(src, b, l, 22, "errors"@);
    assert(src[b + 28] == l[28]);
    assert(src[b + 28] == l[28]);
}

proof fn piece_write_body_field_6(src: Seq<char>, b: int)
    requires
        holds(src, b, "        (err :validation-failed errors)"@),
    ensures
        blank(src, b + 0, 8),
        src[b + 8] == '(',
        holds(src, b + 9, "err"@),
        "err"@.len() == 3,
        !cont_at(src, b + 12),
        blank(src, b + 12, 1),
        src[b + 13] == ':',
        holds(src, b + 14, "validation-failed"@),
        "validation-failed"@.len() == 17,
        !cont_at(src, b + 31),
        blank(src, b + 31, 1),
        holds(src, b + 32, "errors"@),
        "errors"@.len() == 6,
        !cont_at(src, b + 38),
        src[b + 38] == ')',
        0 <= b,
        b + 39 <= src.len(),
        "        (err :validation-failed errors)"@.len() == 39,
{
    reveal(holds);
    let l = "        (err :validation-failed errors)"@;
    reveal_strlit("        (err :validation-failed errors)");
    reveal_strlit("err");
    reveal_strlit("validation-failed");
    reveal_strlit("errors");
    lemma_blank_sub(src, b, l, 0, 8);
    assert(src[b + 8] == l[8]);
    assert(l.subrange(9, 12) =~= "err"@);
    lemma_holds_sub(src, b, l, 9, "err"@);
    assert(src[b + 12] == l[12]);
    lemma_blank_sub(src, b, l, 12, 1);
    assert(src[b + 13] == l[13]);
    assert(l.subrange(14, 31) =~= "validation-failed"@);
    lemma_holds_sub(src, b, l, 14, "validation-failed"@);
    assert(src[b + 31] == l[31]);
    lemma_blank_sub(src, b, l, 31, 1);
    assert(l.subrange(32, 38) =~= "errors"@);
    lemma_holds_sub(src, b, l, 32, "errors"@);
    assert(src[b + 38] == l[38]);
    assert(src[b + 38] == l[38]);
}

proof fn piece_write_body_field_8(src: Seq<char>, b: int)
    requires
        holds(src, b, "        (match (insert! "@),
    ensures
        blank(src, b + 0, 8),
        src[b + 8] == '(',
        holds(src, b + 9, "match"@),
        "match"@.len() == 5,
        !cont_at(src, b + 14),
        blank(src, b + 14, 1),
        src[b + 15] == '(',
        holds(src, b + 16, "insert!"@),
        "insert!"@.len() == 7,
        !cont_at(src, b + 23),
        blank(src, b + 23, 1),
        0 <= b,
        b + 24 <= src.len(),
        "        (match (insert! "@.len() == 24,
{
    reveal(holds);
    let l = "        (match (insert! "@;
    reveal_strlit("        (match (insert! ");
    reveal_strlit("match");
    reveal_strlit("insert!");
    lemma_blank_sub(src, b, l, 0, 8);
    assert(src[b + 8] == l[8]);
    assert(l.subrange(9, 14) =~= "match"@);
    lemma_holds_sub(src, b, l, 9, "match"@);
    assert(src[b + 14] == l[14]);
    lemma_blank_sub(src, b, l, 14, 1);
    assert(src[b + 15] == l[15]);
    assert(l.subrange(16, 23) =~= "insert!"@);
    lemma_holds_sub(src, b, l, 16, "insert!"@);
    assert(src[b + 23] == l[23]);
    lemma_blank_sub(src, b, l, 23, 1);
}

proof fn piece_write_body_field_10(src: Seq<char>, b: int)
    requires
        holds(src, b, " (build "@),
    ensures
        !cont_at(src, b + 0),
        blank(src, b + 0, 1),
        src[b + 1] == '(',
        holds(src, b + 2, "build"@),
        "build"@.len() == 5,
        !cont_at(src, b + 7),
        blank(src, b + 7, 1),
        0 <= b,
        b + 8 <= src.len(),
        " (build "@.len() == 8,
{
    reveal(holds);
    let l = " (build "@;
    reveal_strlit(" (build ");
    reveal_strlit("build");
    assert(src[b + 0] == l[0]);
    lemma_blank_sub(src, b, l, 0, 1);
    assert(src[b + 1] == l[1]);
    assert(l.subrange(2, 7) =~= "build"@);
    lemma_holds_sub(src, b, l, 2, "build"@);
    assert(src[b + 7] == l[7]);
    lemma_blank_sub(src, b, l, 7, 1);
}

proof fn piece_write_body_field_12(src: Seq<char>, b: int)
    requires
        holds(src, b, " input))"@),
    ensures
        !cont_at(src, b + 0),
        blank(src, b + 0, 1),
        holds(src, b + 1, "input"@),
        "input"@.len() == 5,
        !cont_at(src, b + 6),
        src[b + 6] == ')',
        src[b + 7] == ')',
        0 <= b,
        b + 8 <= src.len(),
        " input))"@.len() == 8,
{
    reveal(holds);
    let l = " input))"@;
    reveal_strlit(" input))");
    reveal_strlit("input");
    assert(src[b + 0] == l[0]);
    lemma_blank_sub(src, b, l, 0, 1);
    assert(l.subrange(1, 6) =~= "input"@);
    lemma_holds_sub(src, b, l, 1, "input"@);
    assert(src[b + 6] == l[6]);
    assert(src[b + 6] == l[6]);
    assert(src[b + 7] == l[7]);
}

proof fn piece_write_body_field_14(src: Seq<char>, b: int)
    requires
        holds(src, b, "          (err :unique-violation) (err :duplicate-"@),
    ensures
        blank(src, b + 0, 10),
        src[b + 10] == '(',
        holds(src, b + 11, "err"@),
        "err"@.len() == 3,
        !cont_at(src, b + 14),
        blank(src, b + 14, 1),
        src[b + 15] == ':',
        holds(src, b + 16, "unique-violation"@),
        "unique-violation"@.len() == 16,
        !cont_at(src, b + 32),
        src[b + 32] == ')',
        blank(src, b + 33, 1),
        src[b + 34] == '(',
        holds(src, b + 35, "err"@),
        "err"@.len() == 3,
        !cont_at(src, b + 38),
        blank(src, b + 38, 1),
        src[b + 39] == ':',
        holds(src, b + 40, "duplicate-"@),
        "duplicate-"@.len() == 10,
        0 <= b,
        b + 50 <= src.len(),
        "          (err :unique-violation) (err :duplicate-"@.len() == 50,
{
    reveal(holds);
    let l = "          (err :unique-violation) (err :duplicate-"@;
    reveal_strlit("          (err :unique-violation) (err :duplicate-");
    reveal_strlit("err");
    reveal_strlit("unique-violation");
    reveal_strlit("duplicate-");
    lemma_blank_sub(src, b, l, 0, 10);
    assert(src[b + 10] == l[10]);
    assert(l.subrange(11, 14) =~= "err"@);
    lemma_holds_sub(src, b, l, 11, "err"@);
    assert(src[b + 14] == l[14]);
    lemma_blank_sub(src, b, l, 14, 1);
    assert(src[b + 15] == l[15]);
    assert(l.subrange(16, 32) =~= "unique-violation"@);
    lemma_holds_sub(src, b, l, 16, "unique-violation"@);
    assert(src[b + 32] == l[32]);
    assert(src[b + 32] == l[32]);
    lemma_blank_sub(src, b, l, 33, 1);
    assert(src[b + 34] == l[34]);
    assert(l.subrange(35, 38) =~= "err"@);
    lemma_holds_sub(src, b, l, 35, "err"@);
    assert(src[b + 38] == l[38]);
    lemma_blank_sub(src, b, l, 38, 1);
    assert(src[b + 39] == l[39]);
    assert(l.subrange(40, 50) =~= "duplicate-"@);
    lemma_holds_sub(src, b, l, 40, "duplicate-"@);
}

proof fn piece_write_body_field_16(src: Seq<char>, b: int)
    requires
        holds(src, b, " {:"@),
    ensures
        !cont_at(src, b + 0),
        blank(src, b + 0, 1),
        src[b + 1] == '{',
        src[b + 2] == ':',
        0 <= b,
        b + 3 <= src.len(),
        " {:"@.len() == 3,
{
    reveal(holds);
    let l = " {:"@;
    reveal_strlit(" {:");
    assert(src[b + 0] == l[0]);
    lemma_blank_sub(src, b, l, 0, 1);
    assert(src[b + 1] == l[1]);
    assert(src[b + 2] == l[2]);
}

proof fn piece_write_body_field_20(src: Seq<char>, b: int)
    requires
        holds(src, b, ")})"@),
    ensures
        !cont_at(src, b + 0),
        src[b + 0] == ')',
        src[b + 1] == '}',
        src[b + 2] == ')',
        0 <= b,
        b + 3 <= src.len(),
        ")})"@.len() == 3,
{
    reveal(holds);
    let l = ")})"@;
    reveal_strlit(")})");
    assert(src[b + 0] == l[0]);
    assert(src[b + 0] == l[0]);
    assert(src[b + 1] == l[1]);
    assert(src[b + 2] == l[2]);
}

proof fn piece_write_body_field_22(src: Seq<char>, b: int)
    requires
        holds(src, b, "          (ok entity)             (ok entity))))"@),
    ensures
        blank(src, b + 0, 10),
        src[b + 10] == '(',
        holds(src, b + 11, "ok"@),
        "ok"@.len() == 2,
        !cont_at(src, b + 13),
        blank(src, b + 13, 1),
        holds(src, b + 14, "entity"@),
        "entity"@.len() == 6,
        !cont_at(src, b + 20),
        src[b + 20] == ')',
        blank(src, b + 21, 13),
        src[b + 34] == '(',
        holds(src, b + 35, "ok"@),
        "ok"@.len() == 2,
        !cont_at(src, b + 37),
        blank(src, b + 37, 1),
        holds(src, b + 38, "entity"@),
        "entity"@.len() == 6,
        !cont_at(src, b + 44),
        src[b + 44] == ')',
        src[b + 45] == ')',
        src[b + 46] == ')',
        src[b + 47] == ')',
        0 <= b,
        b + 48 <= src.len(),
        "          (ok entity)             (ok entity))))"@.len() == 48,
{
    reveal(holds);
    let l = "          (ok entity)             (ok entity))))"@;
    reveal_strlit("          (ok entity)             (ok entity))))");
    reveal_strlit("ok");
    reveal_strlit("entity");
    lemma_blank_sub(src, b, l, 0, 10);
    assert(src[b + 10] == l[10]);
    assert(l.subrange(11, 13) =~= "ok"@);
    lemma_holds_sub(src, b, l, 11, "ok"@);
    assert(src[b + 13] == l[13]);
    lemma_blank_sub(src, b, l, 13, 1);
    assert(l.subrange(14, 20) =~= "entity"@);
    lemma_holds_sub(src, b, l, 14, "entity"@);
    assert(src[b + 20] == l[20]);
    assert(src[b + 20] == l[20]);
    lemma_blank_sub(src, b, l, 21, 13);
    assert(src[b + 34] == l[34]);
    assert(l.subrange(35, 37) =~= "ok"@);
    lemma_holds_sub(src, b, l, 35, "ok"@);
    assert(src[b + 37] == l[37]);
    lemma_blank_sub(src, b, l, 37, 1);
    assert(l.subrange(38, 44) =~= "entity"@);
    lemma_holds_sub(src, b, l, 38, "entity"@);
    assert(src[b + 44] == l[44]);
    assert(src[b + 44] == l[44]);
    assert(src[b + 45] == l[45]);
    assert(src[b + 46] == l[46]);
    assert(src[b + 47] == l[47]);
}

proof fn piece_write_body_plain_14(src: Seq<char>, b: int)
    requires
        holds(src, b, "          (err :unique-violation) (err :duplicate {:input input})"@),
    ensures
        blank(src, b + 0, 10),
        src[b + 10] == '(',
        holds(src, b + 11, "err"@),
        "err"@.len() == 3,
        !cont_at(src, b + 14),
        blank(src, b + 14, 1),
        src[b + 15] == ':',
        holds(src, b + 16, "unique-violation"@),
        "unique-violation"@.len() == 16,
        !cont_at(src, b + 32),
        src[b + 32] == ')',
        blank(src, b + 33, 1),
        src[b + 34] == '(',
        holds(src, b + 35, "err"@),
        "err"@.len() == 3,
        !cont_at(src, b + 38),
        blank(src, b + 38, 1),
        src[b + 39] == ':',
        holds(src, b + 40, "duplicate"@),
        "duplicate"@.len() == 9,
        !cont_at(src, b + 49),
        blank(src, b + 49, 1),
        src[b + 50] == '{',
        src[b + 51] == ':',
        holds(src, b + 52, "input"@),
        "input"@.len() == 5,
        !cont_at(src, b + 57),
        blank(src, b + 57, 1),
        holds(src, b + 58, "input"@),
        "input"@.len() == 5,
        !cont_at(src, b + 63),
        src[b + 63] == '}',
        src[b + 64] == ')',
        0 <= b,
        b + 65 <= src.len(),
        "          (err :unique-violation) (err :duplicate {:input input})"@.len() == 65,
{
    reveal(holds);
    let l = "          (err :unique-violation) (err :duplicate {:input input})"@;
    reveal_strlit("          (err :unique-violation) (err :duplicate {:input input})");
    reveal_strlit("err");
    reveal_strlit("unique-violation");
    reveal_strlit("duplicate");
    reveal_strlit("input");
    lemma_blank_sub(src, b, l, 0, 10);
    assert(src[b + 10] == l[10]);
    assert(l.subrange(11, 14) =~= "err"@);
    lemma_holds_sub(src, b, l, 11, "err"@);
    assert(src[b + 14] == l[14]);
    lemma_blank_sub(src, b, l, 14, 1);
    assert(src[b + 15] == l[15]);
    assert(l.subrange(16, 32) =~= "unique-violation"@);
    lemma_holds_sub(src, b, l, 16, "unique-violation"@);
    assert(src[b + 32] == l[32]);
    assert(src[b + 32] == l[32]);
    lemma_blank_sub(src, b, l, 33, 1);
    assert(src[b + 34] == l[34]);
    assert(l.subrange(35, 38) =~= "err"@);
    lemma_holds_sub(src, b, l, 35, "err"@);
    assert(src[b + 38] == l[38]);
    lemma_blank_sub(src, b, l, 38, 1);
    assert(src[b + 39] == l[39]);
    assert(l.subrange(40, 49) =~= "duplicate"@);
    lemma_holds_sub(src, b, l, 40, "duplicate"@);
    assert(src[b + 49] == l[49]);
    lemma_blank_sub(src, b, l, 49, 1);
    assert(src[b + 50] == l[50]);
    assert(src[b + 51] == l[51]);
    assert(l.subrange(52, 57) =~= "input"@);
    lemma_holds_sub(src, b, l, 52, "input"@);
    assert(src[b + 57] == l[57]);
    lemma_blank_sub(src, b, l, 57, 1);
    assert(l.subrange(58, 63) =~= "input"@);
    lemma_holds_sub(src, b, l, 58, "input"@);
    assert(src[b + 63] == l[63]);
    assert(src[b + 63] == l[63]);
    assert(src[b + 64] == l[64]);
}

/// `a` followed by the forms of the head of a module.
pub open spec fn header_run(a: Seq<Form>, name: Seq<char>, spec_id: Seq<char>) -> Seq<Form> {
    a
}

/// The forms inside the container that the head of a module opens.
pub open spec fn header_inner(name: Seq<char>, spec_id: Seq<char>) -> Seq<Form> {
    Seq::<Form>::empty()
        .push(sym("module"@))
        .push(sym(name))
        .push(kw("provenance"@))
        .push(
            Form::Record(
                Seq::<(Form, Form)>::empty()
                    .push((sym("req"@), quoted(spec_id)))
                    .push((sym("author"@), quoted("agent:pact-generate"@)))
                    .push((sym("created"@), quoted(created()))),
            ),
        )
        .push(kw("version"@))
        .push(num(1nat))
}

/// The text of the head of a module holds its forms.
pub proof fn lemma_header(
    src: Seq<char>,
    p: int,
    a: Seq<Form>,
    b: int,
    name: Seq<char>,
    spec_id: Seq<char>,
)
    requires
        lands(src, p, a, b),
        holds(src, b, "(module "@),
        holds(src, b + 8, name),
        holds(src, b + name.len() + 8, "\n"@),
        holds(src, b + name.len() + 9, "  :provenance {req: \""@),
        holds(src, b + name.len() + 30, spec_id),
        holds(
            src,
            b + name.len() + spec_id.len() + 30,
            "\", author: \"agent:pact-generate\", created: \""@,
        ),
        holds(src, b + name.len() + spec_id.len() + 74, created()),
        holds(src, b + name.len() + spec_id.len() + created().len() + 74, "\"}"@),
        holds(src, b + name.len() + spec_id.len() + created().len() + 76, "\n"@),
        holds(src, b + name.len() + spec_id.len() + created().len() + 77, "  :version 1"@),
        holds(src, b + name.len() + spec_id.len() + created().len() + 89, "\n"@),
        symbol_text(name),
        string_text(spec_id),
        string_text(created()),
    ensures
        lands(src, p, header_run(a, name, spec_id), b),
        blank(src, b, 0),
        b < src.len(),
        src[b] == '(',
        lands(
            src,
            b + 1,
            header_inner(name, spec_id),
            b + name.len() + spec_id.len() + created().len() + 90,
        ),
{
    piece_header_0(src, b);
    lemma_holds_bounds(src, b + 8, name);
    piece_header_2(src, b + name.len() + 8);
    piece_header_3(src, b + name.len() + 9);
    lemma_holds_bounds(src, b + name.len() + 30, spec_id);
    piece_header_5(src, b + name.len() + spec_id.len() + 30);
    lemma_holds_bounds(src, b + name.len() + spec_id.len() + 74, created());
    piece_header_7(src, b + name.len() + spec_id.len() + created().len() + 74);
    piece_header_8(src, b + name.len() + spec_id.len() + created().len() + 76);
    piece_header_9(src, b + name.len() + spec_id.len() + created().len() + 77);
    piece_header_2(src, b + name.len() + spec_id.len() + created().len() + 89);
    lemma_blank_zero(src, b);
    lemma_lands_start(src, b + 1);
    let r1 = Seq::<Form>::empty();
    lemma_blank_zero(src, b + 1);
    word_module();
    step_symbol(src, b + 1, r1, b + 1, 0, "module"@);
    let r2 = r1.push(sym("module"@));
    step_symbol(src, b + 1, r2, b + 7, 1, name);
    let r3 = r2.push(sym(name));
    lemma_blank_join(src, b + name.len() + 8, 1, 2);
    word_provenance();
    step_keyword(src, b + 1, r3, b + name.len() + 8, 3, "provenance"@);
    let r4 = r3.push(kw("provenance"@));
    lemma_mark(src, b + name.len() + 22, 1, '{');
    lemma_blank_zero(src, b + name.len() + 24);
    word_req();
    lemma_symbol(src, b + name.len() + 24, 0, "req"@);
    lemma_blank_zero(src, b + name.len() + 27);
    lemma_colon(src, b + name.len() + 27, 0);
    lemma_string(src, b + name.len() + 28, 1, spec_id);
    lemma_blank_zero(src, b + name.len() + spec_id.len() + 31);
    lemma_mark(src, b + name.len() + spec_id.len() + 31, 0, ',');
    word_author();
    lemma_symbol(src, b + name.len() + spec_id.len() + 32, 1, "author"@);
    lemma_blank_zero(src, b + name.len() + spec_id.len() + 39);
    lemma_colon(src, b + name.len() + spec_id.len() + 39, 0);
    word_agent_pact_generate();
    lemma_string(src, b + name.len() + spec_id.len() + 40, 1, "agent:pact-generate"@);
    lemma_blank_zero(src, b + name.len() + spec_id.len() + 62);
    lemma_mark(src, b + name.len() + spec_id.len() + 62, 0, ',');
    word_created();
    lemma_symbol(src, b + name.len() + spec_id.len() + 63, 1, "created"@);
    lemma_blank_zero(src, b + name.len() + spec_id.len() + 71);
    lemma_colon(src, b + name.len() + spec_id.len() + 71, 0);
    lemma_string(src, b + name.len() + spec_id.len() + 72, 1, created());
    lemma_blank_zero(src, b + name.len() + spec_id.len() + created().len() + 75);
    lemma_mark(src, b + name.len() + spec_id.len() + created().len() + 75, 0, '}');
    let entries = Seq::<(Form, Form)>::empty()
        .push((sym("req"@), quoted(spec_id)))
        .push((sym("author"@), quoted("agent:pact-generate"@)))
        .push((sym("created"@), quoted(created())));
    lemma_record_done(src, b + name.len() + spec_id.len() + created().len() + 75, entries);
    assert(entries[2] == (sym("created"@), quoted(created())));
    lemma_record_entry(
        src,
        b + name.len() + spec_id.len() + 63,
        entries,
        2,
        "created"@,
        created(),
        b + name.len() + spec_id.len() + 71,
        b + name.len() + spec_id.len() + 72,
        b + name.len() + spec_id.len() + created().len() + 75,
        b + name.len() + spec_id.len() + created().len() + 75,
    );
    assert(entries[1] == (sym("author"@), quoted("agent:pact-generate"@)));
    lemma_record_entry(
        src,
        b + name.len() + spec_id.len() + 32,
        entries,
        1,
        "author"@,
        "agent:pact-generate"@,
        b + name.len() + spec_id.len() + 39,
        b + name.len() + spec_id.len() + 40,
        b + name.len() + spec_id.len() + 62,
        b + name.len() + spec_id.len() + 63,
    );
    assert(entries[0] == (sym("req"@), quoted(spec_id)));
    lemma_record_entry(
        src,
        b + name.len() + 24,
        entries,
        0,
        "req"@,
        spec_id,
        b + name.len() + 27,
        b + name.len() + 28,
        b + name.len() + spec_id.len() + 31,
        b + name.len() + spec_id.len() + 32,
    );
    step_record(
        src,
        b + 1,
        r4,
        b + name.len() + 22,
        entries,
        b + name.len() + 24,
        b + name.len() + spec_id.len() + created().len() + 75,
        b + name.len() + spec_id.len() + created().len() + 76,
    );
    let r5 = r4.push(Form::Record(entries));
    lemma_blank_join(src, b + name.len() + spec_id.len() + created().len() + 76, 1, 2);
    word_version();
    step_keyword(
        src,
        b + 1,
        r5,
        b + name.len() + spec_id.len() + created().len() + 76,
        3,
        "version"@,
    );
    let r6 = r5.push(kw("version"@));
    lemma_digit_text(1);
    step_int(src, b + 1, r6, b + name.len() + spec_id.len() + created().len() + 87, 1, 1nat);
    let r7 = r6.push(num(1nat));
    lemma_lands_blank(src, b + 1, r7, b + name.len() + spec_id.len() + created().len() + 89, 1);
}

/// `acc` followed by the text of the head of a module.
pub open spec fn header_text(acc: Seq<char>, name: Seq<char>, spec_id: Seq<char>) -> Seq<char> {
    acc
        + "(module "@
        + name
        + "\n"@
        + "  :provenance {req: \""@
        + spec_id
        + "\", author: \"agent:pact-generate\", created: \""@
        + created()
        + "\"}"@
        + "\n"@
        + "  :version 1"@
        + "\n"@
}

/// The text of the head of a module, written behind `acc`, holds its forms.
pub proof fn header_at(
    src: Seq<char>,
    p: int,
    a: Seq<Form>,
    x: int,
    acc: Seq<char>,
    name: Seq<char>,
    spec_id: Seq<char>,
)
    requires
        holds(src, x, header_text(acc, name, spec_id)),
        lands(src, p, a, x + acc.len()),
        symbol_text(name),
        string_text(spec_id),
        string_text(created()),
    ensures
        lands(src, p, header_run(a, name, spec_id), x + acc.len()),
        blank(src, x + acc.len(), 0),
        x + acc.len() < src.len(),
        src[x + acc.len()] == '(',
        lands(
            src,
            x + acc.len() + 1,
            header_inner(name, spec_id),
            x + header_text(acc, name, spec_id).len(),
        ),
{
    let t1 = acc + "(module "@;
    let t2 = t1 + name;
    let t3 = t2 + "\n"@;
    let t4 = t3 + "  :provenance {req: \""@;
    let t5 = t4 + spec_id;
    let t6 = t5 + "\", author: \"agent:pact-generate\", created: \""@;
    let t7 = t6 + created();
    let t8 = t7 + "\"}"@;
    let t9 = t8 + "\n"@;
    let t10 = t9 + "  :version 1"@;
    lemma_holds_split(src, x, t10, "\n"@);
    reveal_strlit("\n");
    lemma_holds_split(src, x, t9, "  :version 1"@);
    reveal_strlit("  :version 1");
    lemma_holds_split(src, x, t8, "\n"@);
    reveal_strlit("\n");
    lemma_holds_split(src, x, t7, "\"}"@);
    reveal_strlit("\"}");
    lemma_holds_split(src, x, t6, created());
    lemma_holds_split(src, x, t5, "\", author: \"agent:pact-generate\", created: \""@);
    reveal_strlit("\", author: \"agent:pact-generate\", created: \"");
    lemma_holds_split(src, x, t4, spec_id);
    lemma_holds_split(src, x, t3, "  :provenance {req: \""@);
    reveal_strlit("  :provenance {req: \"");
    lemma_holds_split(src, x, t2, "\n"@);
    reveal_strlit("\n");
    lemma_holds_split(src, x, t1, name);
    lemma_holds_split(src, x, acc, "(module "@);
    reveal_strlit("(module ");
    lemma_header(src, p, a, x + acc.len(), name, spec_id);
}

/// `a` followed by the forms of the head of a type.
pub open spec fn type_open_run(a: Seq<Form>, name: Seq<char>) -> Seq<Form> {
    a
}

/// The forms inside the container that the head of a type opens.
pub open spec fn type_open_inner(name: Seq<char>) -> Seq<Form> {
    Seq::<Form>::empty().push(sym("type"@)).push(sym(name))
}

/// The text of the head of a type holds its forms.
pub proof fn lemma_type_open(src: Seq<char>, p: int, a: Seq<Form>, b: int, name: Seq<char>)
    requires
        lands(src, p, a, b),
        holds(src, b, "\n"@),
        holds(src, b + 1, "  (type "@),
        holds(src, b + 9, name),
        holds(src, b + name.len() + 9, "\n"@),
        symbol_text(name),
    ensures
        lands(src, p, type_open_run(a, name), b),
        blank(src, b, 3),
        b + 3 < src.len(),
        src[b + 3] == '(',
        lands(src, b + 4, type_open_inner(name), b + name.len() + 10),
{
    piece_header_8(src, b);
    piece_type_open_1(src, b + 1);
    lemma_holds_bounds(src, b + 9, name);
    piece_header_2(src, b + name.len() + 9);
    lemma_blank_join(src, b, 1, 2);
    lemma_lands_start(src, b + 4);
    let r1 = Seq::<Form>::empty();
    lemma_blank_zero(src, b + 4);
    word_type();
    step_symbol(src, b + 4, r1, b + 4, 0, "type"@);
    let r2 = r1.push(sym("type"@));
    step_symbol(src, b + 4, r2, b + 8, 1, name);
    let r3 = r2.push(sym(name));
    lemma_lands_blank(src, b + 4, r3, b + name.len() + 9, 1);
}

/// `acc` followed by the text of the head of a type.
pub open spec fn type_open_text(acc: Seq<char>, name: Seq<char>) -> Seq<char> {
    acc + "\n"@ + "  (type "@ + name + "\n"@
}

/// Where the head of a type is written behind `acc`, `acc` is written before it.
pub proof fn type_open_cut(src: Seq<char>, x: int, acc: Seq<char>, name: Seq<char>)
    requires
        holds(src, x, type_open_text(acc, name)),
    ensures
        holds(src, x, acc),
        x + (type_open_text(acc, name)).len() == x + acc.len() + name.len() + 10,
        !cont_at(src, x + acc.len()),
{
    let t1 = acc + "\n"@;
    let t2 = t1 + "  (type "@;
    let t3 = t2 + name;
    lemma_holds_split(src, x, t3, "\n"@);
    reveal_strlit("\n");
    lemma_holds_split(src, x, t2, name);
    lemma_holds_split(src, x, t1, "  (type "@);
    reveal_strlit("  (type ");
    lemma_holds_split(src, x, acc, "\n"@);
    reveal_strlit("\n");
    lemma_first_char(src, x + acc.len(), "\n"@);
}

/// The text of the head of a type, written behind `acc`, holds its forms.
pub proof fn type_open_at(
    src: Seq<char>,
    p: int,
    a: Seq<Form>,
    x: int,
    acc: Seq<char>,
    name: Seq<char>,
)
    requires
        holds(src, x, type_open_text(acc, name)),
        lands(src, p, a, x + acc.len()),
        symbol_text(name),
    ensures
        lands(src, p, type_open_run(a, name), x + acc.len()),
        blank(src, x + acc.len(), 3),
        x + acc.len() + 3 < src.len(),
        src[x + acc.len() + 3] == '(',
        lands(src, x + acc.len() + 4, type_open_inner(name), x + type_open_text(acc, name).len()),
{
    let t1 = acc + "\n"@;
    let t2 = t1 + "  (type "@;
    let t3 = t2 + name;
    lemma_holds_split(src, x, t3, "\n"@);
    reveal_strlit("\n");
    lemma_holds_split(src, x, t2, name);
    lemma_holds_split(src, x, t1, "  (type "@);
    reveal_strlit("  (type ");
    lemma_holds_split(src, x, acc, "\n"@);
    reveal_strlit("\n");
    lemma_type_open(src, p, a, x + acc.len(), name);
}

/// `a` followed by the forms of the head of the invariants.
pub open spec fn invariants_open_run(a: Seq<Form>) -> Seq<Form> {
    a.push(kw("invariants"@))
}

/// The forms inside the container that the head of the invariants opens.
pub open spec fn invariants_open_inner() -> Seq<Form> {
    Seq::<Form>::empty()
}

/// The text of the head of the invariants holds its forms.
pub proof fn lemma_invariants_open(src: Seq<char>, p: int, a: Seq<Form>, b: int)
    requires
        lands(src, p, a, b),
        holds(src, b, "    :invariants ["@),
    ensures
        lands(src, p, invariants_open_run(a), b + 15),
        blank(src, b + 15, 1),
        b + 16 < src.len(),
        src[b + 16] == '[',
        lands(src, b + 17, invariants_open_inner(), b + 17),
{
    piece_invariants_open_0(src, b);
    word_invariants();
    step_keyword(src, p, a, b, 4, "invariants"@);
    let r1 = a.push(kw("invariants"@));
    lemma_lands_start(src, b + 17);
    let r2 = Seq::<Form>::empty();
    lemma_blank_zero(src, b + 17);
}

/// `acc` followed by the text of the head of the invariants.
pub open spec fn invariants_open_text(acc: Seq<char>) -> Seq<char> {
    acc + "    :invariants ["@
}

/// Where the head of the invariants is written behind `acc`, `acc` is written before it.
pub proof fn invariants_open_cut(src: Seq<char>, x: int, acc: Seq<char>)
    requires
        holds(src, x, invariants_open_text(acc)),
    ensures
        holds(src, x, acc),
        x + (invariants_open_text(acc)).len() == x + acc.len() + 17,
        !cont_at(src, x + acc.len()),
{
    lemma_holds_split(src, x, acc, "    :invariants ["@);
    reveal_strlit("    :invariants [");
    lemma_first_char(src, x + acc.len(), "    :invariants ["@);
}

/// The text of the head of the invariants, written behind `acc`, holds its forms.
pub proof fn invariants_open_at(src: Seq<char>, p: int, a: Seq<Form>, x: int, acc: Seq<char>)
    requires
        holds(src, x, invariants_open_text(acc)),
        lands(src, p, a, x + acc.len()),
    ensures
        lands(src, p, invariants_open_run(a), x + acc.len() + 15),
        blank(src, x + acc.len() + 15, 1),
        x + acc.len() + 16 < src.len(),
        src[x + acc.len() + 16] == '[',
        lands(src, x + acc.len() + 17, invariants_open_inner(), x + invariants_open_text(acc).len()),
{
    lemma_holds_split(src, x, acc, "    :invariants ["@);
    reveal_strlit("    :invariants [");
    lemma_invariants_open(src, p, a, x + acc.len());
}

/// `a` followed by the forms of the rule that a field is not empty.
pub open spec fn strlen_rule_run(a: Seq<Form>, name: Seq<char>) -> Seq<Form> {
    a
        .push(
            Form::List(
                Seq::<Form>::empty()
                    .push(sym(">"@))
                    .push(Form::List(Seq::<Form>::empty().push(sym("strlen"@)).push(sym(name))))
                    .push(num(0nat)),
            ),
        )
}

/// The text of the rule that a field is not empty holds its forms.
pub proof fn lemma_strlen_rule(src: Seq<char>, p: int, a: Seq<Form>, b: int, name: Seq<char>)
    requires
        lands(src, p, a, b),
        holds(src, b, "(> (strlen "@),
        holds(src, b + 11, name),
        holds(src, b + name.len() + 11, ") 0)"@),
        symbol_text(name),
    ensures
        lands(src, p, strlen_rule_run(a, name), b + name.len() + 15),
{
    piece_strlen_rule_0(src, b);
    lemma_holds_bounds(src, b + 11, name);
    piece_strlen_rule_2(src, b + name.len() + 11);
    lemma_blank_zero(src, b);
    lemma_lands_start(src, b + 1);
    let r1 = Seq::<Form>::empty();
    lemma_blank_zero(src, b + 1);
    word_w3e();
    step_symbol(src, b + 1, r1, b + 1, 0, ">"@);
    let r2 = r1.push(sym(">"@));
    lemma_lands_start(src, b + 4);
    let r3 = Seq::<Form>::empty();
    lemma_blank_zero(src, b + 4);
    word_strlen();
    step_symbol(src, b + 4, r3, b + 4, 0, "strlen"@);
    let r4 = r3.push(sym("strlen"@));
    step_symbol(src, b + 4, r4, b + 10, 1, name);
    let r5 = r4.push(sym(name));
    lemma_blank_zero(src, b + name.len() + 11);
    lemma_lands_blank(src, b + 4, r5, b + name.len() + 11, 0);
    step_list(src, b + 1, r2, b + 2, 1, r5, b + name.len() + 11);
    let r6 = r2.push(Form::List(r5));
    lemma_digit_text(0);
    step_int(src, b + 1, r6, b + name.len() + 12, 1, 0nat);
    let r7 = r6.push(num(0nat));
    lemma_blank_zero(src, b + name.len() + 14);
    lemma_lands_blank(src, b + 1, r7, b + name.len() + 14, 0);
    step_list(src, p, a, b, 0, r7, b + name.len() + 14);
    let r8 = a.push(Form::List(r7));
    lemma_blank_zero(src, b + name.len() + 15);
}

/// `acc` followed by the text of the rule that a field is not empty.
pub open spec fn strlen_rule_text(acc: Seq<char>, name: Seq<char>) -> Seq<char> {
    acc + "(> (strlen "@ + name + ") 0)"@
}

/// Where the rule that a field is not empty is written behind `acc`, `acc` is written before it.
pub proof fn strlen_rule_cut(src: Seq<char>, x: int, acc: Seq<char>, name: Seq<char>)
    requires
        holds(src, x, strlen_rule_text(acc, name)),
    ensures
        holds(src, x, acc),
        x + (strlen_rule_text(acc, name)).len() == x + acc.len() + name.len() + 15,
        !cont_at(src, x + acc.len()),
{
    let t1 = acc + "(> (strlen "@;
    let t2 = t1 + name;
    lemma_holds_split(src, x, t2, ") 0)"@);
    reveal_strlit(") 0)");
    lemma_holds_split(src, x, t1, name);
    lemma_holds_split(src, x, acc, "(> (strlen "@);
    reveal_strlit("(> (strlen ");
    lemma_first_char(src, x + acc.len(), "(> (strlen "@);
}

/// The text of the rule that a field is not empty, written behind `acc`, holds its forms.
pub proof fn strlen_rule_at(
    src: Seq<char>,
    p: int,
    a: Seq<Form>,
    x: int,
    acc: Seq<char>,
    name: Seq<char>,
)
    requires
        holds(src, x, strlen_rule_text(acc, name)),
        lands(src, p, a, x + acc.len()),
        symbol_text(name),
    ensures
        lands(src, p, strlen_rule_run(a, name), x + strlen_rule_text(acc, name).len()),
{
    let t1 = acc + "(> (strlen "@;
    let t2 = t1 + name;
    lemma_holds_split(src, x, t2, ") 0)"@);
    reveal_strlit(") 0)");
    lemma_holds_split(src, x, t1, name);
    lemma_holds_split(src, x, acc, "(> (strlen "@);
    reveal_strlit("(> (strlen ");
    lemma_strlen_rule(src, p, a, x + acc.len(), name);
}

/// `a` followed by the forms of the rule that a field is an email address.
pub open spec fn email_rule_run(a: Seq<Form>, name: Seq<char>) -> Seq<Form> {
    a
        .push(
            Form::List(
                Seq::<Form>::empty()
                    .push(sym("matches"@))
                    .push(sym(name))
                    .push(Form::Atom(AtomView::RegexLit(email_pattern()))),
            ),
        )
}

/// The text of the rule that a field is an email address holds its forms.
pub proof fn lemma_email_rule(src: Seq<char>, p: int, a: Seq<Form>, b: int, name: Seq<char>)
    requires
        lands(src, p, a, b),
        holds(src, b, "(matches "@),
        holds(src, b + 9, name),
        holds(src, b + name.len() + 9, " #/.+@.+\\..+/)"@),
        symbol_text(name),
    ensures
        lands(src, p, email_rule_run(a, name), b + name.len() + 23),
{
    piece_email_rule_0(src, b);
    lemma_holds_bounds(src, b + 9, name);
    piece_email_rule_2(src, b + name.len() + 9);
    lemma_blank_zero(src, b);
    lemma_lands_start(src, b + 1);
    let r1 = Seq::<Form>::empty();
    lemma_blank_zero(src, b + 1);
    word_matches();
    step_symbol(src, b + 1, r1, b + 1, 0, "matches"@);
    let r2 = r1.push(sym("matches"@));
    step_symbol(src, b + 1, r2, b + 8, 1, name);
    let r3 = r2.push(sym(name));
    step_email_regex(src, b + 1, r3, b + name.len() + 9, 1);
    let r4 = r3.push(Form::Atom(AtomView::RegexLit(email_pattern())));
    lemma_blank_zero(src, b + name.len() + 22);
    lemma_lands_blank(src, b + 1, r4, b + name.len() + 22, 0);
    step_list(src, p, a, b, 0, r4, b + name.len() + 22);
    let r5 = a.push(Form::List(r4));
    lemma_blank_zero(src, b + name.len() + 23);
}

/// `acc` followed by the text of the rule that a field is an email address.
pub open spec fn email_rule_text(acc: Seq<char>, name: Seq<char>) -> Seq<char> {
    acc + "(matches "@ + name + " #/.+@.+\\..+/)"@
}

/// Where the rule that a field is an email address is written behind `acc`, `acc` is written before
/// it.
pub proof fn email_rule_cut(src: Seq<char>, x: int, acc: Seq<char>, name: Seq<char>)
    requires
        holds(src, x, email_rule_text(acc, name)),
    ensures
        holds(src, x, acc),
        x + (email_rule_text(acc, name)).len() == x + acc.len() + name.len() + 23,
        !cont_at(src, x + acc.len()),
{
    let t1 = acc + "(matches "@;
    let t2 = t1 + name;
    lemma_holds_split(src, x, t2, " #/.+@.+\\..+/)"@);
    reveal_strlit(" #/.+@.+\\..+/)");
    lemma_holds_split(src, x, t1, name);
    lemma_holds_split(src, x, acc, "(matches "@);
    reveal_strlit("(matches ");
    lemma_first_char(src, x + acc.len(), "(matches "@);
}

/// The text of the rule that a field is an email address, written behind `acc`, holds its forms.
pub proof fn email_rule_at(
    src: Seq<char>,
    p: int,
    a: Seq<Form>,
    x: int,
    acc: Seq<char>,
    name: Seq<char>,
)
    requires
        holds(src, x, email_rule_text(acc, name)),
        lands(src, p, a, x + acc.len()),
        symbol_text(name),
    ensures
        lands(src, p, email_rule_run(a, name), x + email_rule_text(acc, name).len()),
{
    let t1 = acc + "(matches "@;
    let t2 = t1 + name;
    lemma_holds_split(src, x, t2, " #/.+@.+\\..+/)"@);
    reveal_strlit(" #/.+@.+\\..+/)");
    lemma_holds_split(src, x, t1, name);
    lemma_holds_split(src, x, acc, "(matches "@);
    reveal_strlit("(matches ");
    lemma_email_rule(src, p, a, x + acc.len(), name);
}

/// `a` followed by the forms of the head of a field.
pub open spec fn field_open_run(a: Seq<Form>, name: Seq<char>, ty: Seq<char>) -> Seq<Form> {
    a
}

/// The forms inside the container that the head of a field opens.
pub open spec fn field_open_inner(name: Seq<char>, ty: Seq<char>) -> Seq<Form> {
    Seq::<Form>::empty().push(sym("field"@)).push(sym(name)).push(sym(ty))
}

/// The text of the head of a field holds its forms.
pub proof fn lemma_field_open(
    src: Seq<char>,
    p: int,
    a: Seq<Form>,
    b: int,
    name: Seq<char>,
    ty: Seq<char>,
)
    requires
        lands(src, p, a, b),
        holds(src, b, "    (field "@),
        holds(src, b + 11, name),
        holds(src, b + name.len() + 11, " "@),
        holds(src, b + name.len() + 12, ty),
        symbol_text(name),
        symbol_text(ty),
        !cont_at(src, b + name.len() + ty.len() + 12),
    ensures
        lands(src, p, field_open_run(a, name, ty), b),
        blank(src, b, 4),
        b + 4 < src.len(),
        src[b + 4] == '(',
        lands(src, b + 5, field_open_inner(name, ty), b + name.len() + ty.len() + 12),
{
    piece_field_open_0(src, b);
    lemma_holds_bounds(src, b + 11, name);
    piece_field_open_2(src, b + name.len() + 11);
    lemma_holds_bounds(src, b + name.len() + 12, ty);
    lemma_lands_start(src, b + 5);
    let r1 = Seq::<Form>::empty();
    lemma_blank_zero(src, b + 5);
    word_field();
    step_symbol(src, b + 5, r1, b + 5, 0, "field"@);
    let r2 = r1.push(sym("field"@));
    step_symbol(src, b + 5, r2, b + 10, 1, name);
    let r3 = r2.push(sym(name));
    step_symbol(src, b + 5, r3, b + name.len() + 11, 1, ty);
    let r4 = r3.push(sym(ty));
    lemma_blank_zero(src, b + name.len() + ty.len() + 12);
}

/// `acc` followed by the text of the head of a field.
pub open spec fn field_open_text(acc: Seq<char>, name: Seq<char>, ty: Seq<char>) -> Seq<char> {
    acc + "    (field "@ + name + " "@ + ty
}

/// Where the head of a field is written behind `acc`, `acc` is written before it.
pub proof fn field_open_cut(src: Seq<char>, x: int, acc: Seq<char>, name: Seq<char>, ty: Seq<char>)
    requires
        holds(src, x, field_open_text(acc, name, ty)),
    ensures
        holds(src, x, acc),
        x + (field_open_text(acc, name, ty)).len() == x + acc.len() + name.len() + ty.len() + 12,
        !cont_at(src, x + acc.len()),
{
    let t1 = acc + "    (field "@;
    let t2 = t1 + name;
    let t3 = t2 + " "@;
    lemma_holds_split(src, x, t3, ty);
    lemma_holds_split(src, x, t2, " "@);
    reveal_strlit(" ");
    lemma_holds_split(src, x, t1, name);
    lemma_holds_split(src, x, acc, "    (field "@);
    reveal_strlit("    (field ");
    lemma_first_char(src, x + acc.len(), "    (field "@);
}

/// The text of the head of a field, written behind `acc`, holds its forms.
pub proof fn field_open_at(
    src: Seq<char>,
    p: int,
    a: Seq<Form>,
    x: int,
    acc: Seq<char>,
    name: Seq<char>,
    ty: Seq<char>,
)
    requires
        holds(src, x, field_open_text(acc, name, ty)),
        lands(src, p, a, x + acc.len()),
        symbol_text(name),
        symbol_text(ty),
        !cont_at(src, x + field_open_text(acc, name, ty).len()),
    ensures
        lands(src, p, field_open_run(a, name, ty), x + acc.len()),
        blank(src, x + acc.len(), 4),
        x + acc.len() + 4 < src.len(),
        src[x + acc.len() + 4] == '(',
        lands(
            src,
            x + acc.len() + 5,
            field_open_inner(name, ty),
            x + field_open_text(acc, name, ty).len(),
        ),
{
    let t1 = acc + "    (field "@;
    let t2 = t1 + name;
    let t3 = t2 + " "@;
    lemma_holds_split(src, x, t3, ty);
    lemma_holds_split(src, x, t2, " "@);
    reveal_strlit(" ");
    lemma_holds_split(src, x, t1, name);
    lemma_holds_split(src, x, acc, "    (field "@);
    reveal_strlit("    (field ");
    lemma_field_open(src, p, a, x + acc.len(), name, ty);
}

/// `a` followed by the forms of the flag of an immutable field.
pub open spec fn flag_immutable_run(a: Seq<Form>) -> Seq<Form> {
    a.push(kw("immutable"@))
}

/// The text of the flag of an immutable field holds its forms.
pub proof fn lemma_flag_immutable(src: Seq<char>, p: int, a: Seq<Form>, b: int)
    requires
        lands(src, p, a, b),
        holds(src, b, " :immutable"@),
        !cont_at(src, b + 11),
    ensures
        lands(src, p, flag_immutable_run(a), b + 11),
{
    piece_flag_immutable_0(src, b);
    word_immutable();
    step_keyword(src, p, a, b, 1, "immutable"@);
    let r1 = a.push(kw("immutable"@));
    lemma_blank_zero(src, b + 11);
}

/// `acc` followed by the text of the flag of an immutable field.
pub open spec fn flag_immutable_text(acc: Seq<char>) -> Seq<char> {
    acc + " :immutable"@
}

/// Where the flag of an immutable field is written behind `acc`, `acc` is written before it.
pub proof fn flag_immutable_cut(src: Seq<char>, x: int, acc: Seq<char>)
    requires
        holds(src, x, flag_immutable_text(acc)),
    ensures
        holds(src, x, acc),
        x + (flag_immutable_text(acc)).len() == x + acc.len() + 11,
        !cont_at(src, x + acc.len()),
{
    lemma_holds_split(src, x, acc, " :immutable"@);
    reveal_strlit(" :immutable");
    lemma_first_char(src, x + acc.len(), " :immutable"@);
}

/// The text of the flag of an immutable field, written behind `acc`, holds its forms.
pub proof fn flag_immutable_at(src: Seq<char>, p: int, a: Seq<Form>, x: int, acc: Seq<char>)
    requires
        holds(src, x, flag_immutable_text(acc)),
        lands(src, p, a, x + acc.len()),
        !cont_at(src, x + flag_immutable_text(acc).len()),
    ensures
        lands(src, p, flag_immutable_run(a), x + flag_immutable_text(acc).len()),
{
    lemma_holds_split(src, x, acc, " :immutable"@);
    reveal_strlit(" :immutable");
    lemma_flag_immutable(src, p, a, x + acc.len());
}

/// `a` followed by the forms of the flag of a generated field.
pub open spec fn flag_generated_run(a: Seq<Form>) -> Seq<Form> {
    a.push(kw("generated"@))
}

/// The text of the flag of a generated field holds its forms.
pub proof fn lemma_flag_generated(src: Seq<char>, p: int, a: Seq<Form>, b: int)
    requires
        lands(src, p, a, b),
        holds(src, b, " :generated"@),
        !cont_at(src, b + 11),
    ensures
        lands(src, p, flag_generated_run(a), b + 11),
{
    piece_flag_generated_0(src, b);
    word_generated();
    step_keyword(src, p, a, b, 1, "generated"@);
    let r1 = a.push(kw("generated"@));
    lemma_blank_zero(src, b + 11);
}

/// `acc` followed by the text of the flag of a generated field.
pub open spec fn flag_generated_text(acc: Seq<char>) -> Seq<char> {
    acc + " :generated"@
}

/// Where the flag of a generated field is written behind `acc`, `acc` is written before it.
pub proof fn flag_generated_cut(src: Seq<char>, x: int, acc: Seq<char>)
    requires
        holds(src, x, flag_generated_text(acc)),
    ensures
        holds(src, x, acc),
        x + (flag_generated_text(acc)).len() == x + acc.len() + 11,
        !cont_at(src, x + acc.len()),
{
    lemma_holds_split(src, x, acc, " :generated"@);
    reveal_strlit(" :generated");
    lemma_first_char(src, x + acc.len(), " :generated"@);
}

/// The text of the flag of a generated field, written behind `acc`, holds its forms.
pub proof fn flag_generated_at(src: Seq<char>, p: int, a: Seq<Form>, x: int, acc: Seq<char>)
    requires
        holds(src, x, flag_generated_text(acc)),
        lands(src, p, a, x + acc.len()),
        !cont_at(src, x + flag_generated_text(acc).len()),
    ensures
        lands(src, p, flag_generated_run(a), x + flag_generated_text(acc).len()),
{
    lemma_holds_split(src, x, acc, " :generated"@);
    reveal_strlit(" :generated");
    lemma_flag_generated(src, p, a, x + acc.len());
}

/// `a` followed by the forms of the least length of a field.
pub open spec fn min_len_run(a: Seq<Form>, n: nat) -> Seq<Form> {
    a.push(kw("min-len"@)).push(num(n))
}

/// The text of the least length of a field holds its forms.
pub proof fn lemma_min_len(src: Seq<char>, p: int, a: Seq<Form>, b: int, n: nat)
    requires
        lands(src, p, a, b),
        holds(src, b, " :min-len "@),
        holds(src, b + 10, dec(n)),
        n <= i64::MAX,
        !cont_at(src, b + dec(n).len() + 10),
    ensures
        lands(src, p, min_len_run(a, n), b + dec(n).len() + 10),
{
    piece_min_len_0(src, b);
    lemma_holds_bounds(src, b + 10, dec(n));
    word_min_len();
    step_keyword(src, p, a, b, 1, "min-len"@);
    let r1 = a.push(kw("min-len"@));
    step_int(src, p, r1, b + 9, 1, n);
    let r2 = r1.push(num(n));
    lemma_blank_zero(src, b + dec(n).len() + 10);
}

/// `acc` followed by the text of the least length of a field.
pub open spec fn min_len_text(acc: Seq<char>, n: nat) -> Seq<char> {
    acc + " :min-len "@ + dec(n)
}

/// Where the least length of a field is written behind `acc`, `acc` is written before it.
pub proof fn min_len_cut(src: Seq<char>, x: int, acc: Seq<char>, n: nat)
    requires
        holds(src, x, min_len_text(acc, n)),
    ensures
        holds(src, x, acc),
        x + (min_len_text(acc, n)).len() == x + acc.len() + dec(n).len() + 10,
        !cont_at(src, x + acc.len()),
{
    let t1 = acc + " :min-len "@;
    lemma_holds_split(src, x, t1, dec(n));
    lemma_holds_split(src, x, acc, " :min-len "@);
    reveal_strlit(" :min-len ");
    lemma_first_char(src, x + acc.len(), " :min-len "@);
}

/// The text of the least length of a field, written behind `acc`, holds its forms.
pub proof fn min_len_at(src: Seq<char>, p: int, a: Seq<Form>, x: int, acc: Seq<char>, n: nat)
    requires
        holds(src, x, min_len_text(acc, n)),
        lands(src, p, a, x + acc.len()),
        n <= i64::MAX,
        !cont_at(src, x + min_len_text(acc, n).len()),
    ensures
        lands(src, p, min_len_run(a, n), x + min_len_text(acc, n).len()),
{
    let t1 = acc + " :min-len "@;
    lemma_holds_split(src, x, t1, dec(n));
    lemma_holds_split(src, x, acc, " :min-len "@);
    reveal_strlit(" :min-len ");
    lemma_min_len(src, p, a, x + acc.len(), n);
}

/// `a` followed by the forms of the greatest length of a field.
pub open spec fn max_len_run(a: Seq<Form>, n: nat) -> Seq<Form> {
    a.push(kw("max-len"@)).push(num(n))
}

/// The text of the greatest length of a field holds its forms.
pub proof fn lemma_max_len(src: Seq<char>, p: int, a: Seq<Form>, b: int, n: nat)
    requires
        lands(src, p, a, b),
        holds(src, b, " :max-len "@),
        holds(src, b + 10, dec(n)),
        n <= i64::MAX,
        !cont_at(src, b + dec(n).len() + 10),
    ensures
        lands(src, p, max_len_run(a, n), b + dec(n).len() + 10),
{
    piece_max_len_0(src, b);
    lemma_holds_bounds(src, b + 10, dec(n));
    word_max_len();
    step_keyword(src, p, a, b, 1, "max-len"@);
    let r1 = a.push(kw("max-len"@));
    step_int(src, p, r1, b + 9, 1, n);
    let r2 = r1.push(num(n));
    lemma_blank_zero(src, b + dec(n).len() + 10);
}

/// `acc` followed by the text of the greatest length of a field.
pub open spec fn max_len_text(acc: Seq<char>, n: nat) -> Seq<char> {
    acc + " :max-len "@ + dec(n)
}

/// Where the greatest length of a field is written behind `acc`, `acc` is written before it.
pub proof fn max_len_cut(src: Seq<char>, x: int, acc: Seq<char>, n: nat)
    requires
        holds(src, x, max_len_text(acc, n)),
    ensures
        holds(src, x, acc),
        x + (max_len_text(acc, n)).len() == x + acc.len() + dec(n).len() + 10,
        !cont_at(src, x + acc.len()),
{
    let t1 = acc + " :max-len "@;
    lemma_holds_split(src, x, t1, dec(n));
    lemma_holds_split(src, x, acc, " :max-len "@);
    reveal_strlit(" :max-len ");
    lemma_first_char(src, x + acc.len(), " :max-len "@);
}

/// The text of the greatest length of a field, written behind `acc`, holds its forms.
pub proof fn max_len_at(src: Seq<char>, p: int, a: Seq<Form>, x: int, acc: Seq<char>, n: nat)
    requires
        holds(src, x, max_len_text(acc, n)),
        lands(src, p, a, x + acc.len()),
        n <= i64::MAX,
        !cont_at(src, x + max_len_text(acc, n).len()),
    ensures
        lands(src, p, max_len_run(a, n), x + max_len_text(acc, n).len()),
{
    let t1 = acc + " :max-len "@;
    lemma_holds_split(src, x, t1, dec(n));
    lemma_holds_split(src, x, acc, " :max-len "@);
    reveal_strlit(" :max-len ");
    lemma_max_len(src, p, a, x + acc.len(), n);
}

/// `a` followed by the forms of the format of a field.
pub open spec fn format_run(a: Seq<Form>, fmt: Seq<char>) -> Seq<Form> {
    a.push(kw("format"@)).push(kw(fmt))
}

/// The text of the format of a field holds its forms.
pub proof fn lemma_format(src: Seq<char>, p: int, a: Seq<Form>, b: int, fmt: Seq<char>)
    requires
        lands(src, p, a, b),
        holds(src, b, " :format :"@),
        holds(src, b + 10, fmt),
        keyword_text(fmt),
        !cont_at(src, b + fmt.len() + 10),
    ensures
        lands(src, p, format_run(a, fmt), b + fmt.len() + 10),
{
    piece_format_0(src, b);
    lemma_holds_bounds(src, b + 10, fmt);
    word_format();
    step_keyword(src, p, a, b, 1, "format"@);
    let r1 = a.push(kw("format"@));
    step_keyword(src, p, r1, b + 8, 1, fmt);
    let r2 = r1.push(kw(fmt));
    lemma_blank_zero(src, b + fmt.len() + 10);
}

/// `acc` followed by the text of the format of a field.
pub open spec fn format_text(acc: Seq<char>, fmt: Seq<char>) -> Seq<char> {
    acc + " :format :"@ + fmt
}

/// Where the format of a field is written behind `acc`, `acc` is written before it.
pub proof fn format_cut(src: Seq<char>, x: int, acc: Seq<char>, fmt: Seq<char>)
    requires
        holds(src, x, format_text(acc, fmt)),
    ensures
        holds(src, x, acc),
        x + (format_text(acc, fmt)).len() == x + acc.len() + fmt.len() + 10,
        !cont_at(src, x + acc.len()),
{
    let t1 = acc + " :format :"@;
    lemma_holds_split(src, x, t1, fmt);
    lemma_holds_split(src, x, acc, " :format :"@);
    reveal_strlit(" :format :");
    lemma_first_char(src, x + acc.len(), " :format :"@);
}

/// The text of the format of a field, written behind `acc`, holds its forms.
pub proof fn format_at(src: Seq<char>, p: int, a: Seq<Form>, x: int, acc: Seq<char>, fmt: Seq<char>)
    requires
        holds(src, x, format_text(acc, fmt)),
        lands(src, p, a, x + acc.len()),
        keyword_text(fmt),
        !cont_at(src, x + format_text(acc, fmt).len()),
    ensures
        lands(src, p, format_run(a, fmt), x + format_text(acc, fmt).len()),
{
    let t1 = acc + " :format :"@;
    lemma_holds_split(src, x, t1, fmt);
    lemma_holds_split(src, x, acc, " :format :"@);
    reveal_strlit(" :format :");
    lemma_format(src, p, a, x + acc.len(), fmt);
}

/// `a` followed by the forms of the store within which a field is unique.
pub open spec fn unique_run(a: Seq<Form>, store: Seq<char>) -> Seq<Form> {
    a.push(kw("unique-within"@)).push(sym(store))
}

/// The text of the store within which a field is unique holds its forms.
pub proof fn lemma_unique(src: Seq<char>, p: int, a: Seq<Form>, b: int, store: Seq<char>)
    requires
        lands(src, p, a, b),
        holds(src, b, " :unique-within "@),
        holds(src, b + 16, store),
        symbol_text(store),
        !cont_at(src, b + store.len() + 16),
    ensures
        lands(src, p, unique_run(a, store), b + store.len() + 16),
{
    piece_unique_0(src, b);
    lemma_holds_bounds(src, b + 16, store);
    word_unique_within();
    step_keyword(src, p, a, b, 1, "unique-within"@);
    let r1 = a.push(kw("unique-within"@));
    step_symbol(src, p, r1, b + 15, 1, store);
    let r2 = r1.push(sym(store));
    lemma_blank_zero(src, b + store.len() + 16);
}

/// `acc` followed by the text of the store within which a field is unique.
pub open spec fn unique_text(acc: Seq<char>, store: Seq<char>) -> Seq<char> {
    acc + " :unique-within "@ + store
}

/// Where the store within which a field is unique is written behind `acc`, `acc` is written before
/// it.
pub proof fn unique_cut(src: Seq<char>, x: int, acc: Seq<char>, store: Seq<char>)
    requires
        holds(src, x, unique_text(acc, store)),
    ensures
        holds(src, x, acc),
        x + (unique_text(acc, store)).len() == x + acc.len() + store.len() + 16,
        !cont_at(src, x + acc.len()),
{
    let t1 = acc + " :unique-within "@;
    lemma_holds_split(src, x, t1, store);
    lemma_holds_split(src, x, acc, " :unique-within "@);
    reveal_strlit(" :unique-within ");
    lemma_first_char(src, x + acc.len(), " :unique-within "@);
}

/// The text of the store within which a field is unique, written behind `acc`, holds its forms.
pub proof fn unique_at(
    src: Seq<char>,
    p: int,
    a: Seq<Form>,
    x: int,
    acc: Seq<char>,
    store: Seq<char>,
)
    requires
        holds(src, x, unique_text(acc, store)),
        lands(src, p, a, x + acc.len()),
        symbol_text(store),
        !cont_at(src, x + unique_text(acc, store).len()),
    ensures
        lands(src, p, unique_run(a, store), x + unique_text(acc, store).len()),
{
    let t1 = acc + " :unique-within "@;
    lemma_holds_split(src, x, t1, store);
    lemma_holds_split(src, x, acc, " :unique-within "@);
    reveal_strlit(" :unique-within ");
    lemma_unique(src, p, a, x + acc.len(), store);
}

/// `a` followed by the forms of the effect set of reads.
pub open spec fn read_set_run(a: Seq<Form>, store: Seq<char>) -> Seq<Form> {
    a
        .push(
            Form::List(
                Seq::<Form>::empty()
                    .push(sym("effect-set"@))
                    .push(sym("db-read"@))
                    .push(Form::Vector(Seq::<Form>::empty().push(kw("reads"@)).push(sym(store)))),
            ),
        )
}

/// The text of the effect set of reads holds its forms.
pub proof fn lemma_read_set(src: Seq<char>, p: int, a: Seq<Form>, b: int, store: Seq<char>)
    requires
        lands(src, p, a, b),
        holds(src, b, "\n"@),
        holds(src, b + 1, "  (effect-set db-read    [:reads  "@),
        holds(src, b + 35, store),
        holds(src, b + store.len() + 35, "])"@),
        symbol_text(store),
    ensures
        lands(src, p, read_set_run(a, store), b + store.len() + 37),
{
    piece_header_8(src, b);
    piece_read_set_1(src, b + 1);
    lemma_holds_bounds(src, b + 35, store);
    piece_read_set_3(src, b + store.len() + 35);
    lemma_blank_join(src, b, 1, 2);
    lemma_lands_start(src, b + 4);
    let r1 = Seq::<Form>::empty();
    lemma_blank_zero(src, b + 4);
    word_effect_set();
    step_symbol(src, b + 4, r1, b + 4, 0, "effect-set"@);
    let r2 = r1.push(sym("effect-set"@));
    word_db_read();
    step_symbol(src, b + 4, r2, b + 14, 1, "db-read"@);
    let r3 = r2.push(sym("db-read"@));
    lemma_lands_start(src, b + 27);
    let r4 = Seq::<Form>::empty();
    lemma_blank_zero(src, b + 27);
    word_reads();
    step_keyword(src, b + 27, r4, b + 27, 0, "reads"@);
    let r5 = r4.push(kw("reads"@));
    step_symbol(src, b + 27, r5, b + 33, 2, store);
    let r6 = r5.push(sym(store));
    lemma_blank_zero(src, b + store.len() + 35);
    lemma_lands_blank(src, b + 27, r6, b + store.len() + 35, 0);
    step_vector(src, b + 4, r3, b + 22, 4, r6, b + store.len() + 35);
    let r7 = r3.push(Form::Vector(r6));
    lemma_blank_zero(src, b + store.len() + 36);
    lemma_lands_blank(src, b + 4, r7, b + store.len() + 36, 0);
    step_list(src, p, a, b, 3, r7, b + store.len() + 36);
    let r8 = a.push(Form::List(r7));
    lemma_blank_zero(src, b + store.len() + 37);
}

/// `acc` followed by the text of the effect set of reads.
pub open spec fn read_set_text(acc: Seq<char>, store: Seq<char>) -> Seq<char> {
    acc + "\n"@ + "  (effect-set db-read    [:reads  "@ + store + "])"@
}

/// Where the effect set of reads is written behind `acc`, `acc` is written before it.
pub proof fn read_set_cut(src: Seq<char>, x: int, acc: Seq<char>, store: Seq<char>)
    requires
        holds(src, x, read_set_text(acc, store)),
    ensures
        holds(src, x, acc),
        x + (read_set_text(acc, store)).len() == x + acc.len() + store.len() + 37,
        !cont_at(src, x + acc.len()),
{
    let t1 = acc + "\n"@;
    let t2 = t1 + "  (effect-set db-read    [:reads  "@;
    let t3 = t2 + store;
    lemma_holds_split(src, x, t3, "])"@);
    reveal_strlit("])");
    lemma_holds_split(src, x, t2, store);
    lemma_holds_split(src, x, t1, "  (effect-set db-read    [:reads  "@);
    reveal_strlit("  (effect-set db-read    [:reads  ");
    lemma_holds_split(src, x, acc, "\n"@);
    reveal_strlit("\n");
    lemma_first_char(src, x + acc.len(), "\n"@);
}

/// The text of the effect set of reads, written behind `acc`, holds its forms.
pub proof fn read_set_at(
    src: Seq<char>,
    p: int,
    a: Seq<Form>,
    x: int,
    acc: Seq<char>,
    store: Seq<char>,
)
    requires
        holds(src, x, read_set_text(acc, store)),
        lands(src, p, a, x + acc.len()),
        symbol_text(store),
    ensures
        lands(src, p, read_set_run(a, store), x + read_set_text(acc, store).len()),
{
    let t1 = acc + "\n"@;
    let t2 = t1 + "  (effect-set db-read    [:reads  "@;
    let t3 = t2 + store;
    lemma_holds_split(src, x, t3, "])"@);
    reveal_strlit("])");
    lemma_holds_split(src, x, t2, store);
    lemma_holds_split(src, x, t1, "  (effect-set db-read    [:reads  "@);
    reveal_strlit("  (effect-set db-read    [:reads  ");
    lemma_holds_split(src, x, acc, "\n"@);
    reveal_strlit("\n");
    lemma_read_set(src, p, a, x + acc.len(), store);
}

/// `a` followed by the forms of the effect set of writes.
pub open spec fn write_set_run(a: Seq<Form>, store: Seq<char>) -> Seq<Form> {
    a
        .push(
            Form::List(
                Seq::<Form>::empty()
                    .push(sym("effect-set"@))
                    .push(sym("db-write"@))
                    .push(
                        Form::Vector(
                            Seq::<Form>::empty()
                                .push(kw("writes"@))
                                .push(sym(store))
                                .push(kw("reads"@))
                                .push(sym(store)),
                        ),
                    ),
            ),
        )
}

/// The text of the effect set of writes holds its forms.
pub proof fn lemma_write_set(src: Seq<char>, p: int, a: Seq<Form>, b: int, store: Seq<char>)
    requires
        lands(src, p, a, b),
        holds(src, b, "\n"@),
        holds(src, b + 1, "  (effect-set db-write   [:writes "@),
        holds(src, b + 35, store),
        holds(src, b + store.len() + 35, " :reads "@),
        holds(src, b + store.len() + 43, store),
        holds(src, b + store.len() + store.len() + 43, "])"@),
        symbol_text(store),
    ensures
        lands(src, p, write_set_run(a, store), b + store.len() + store.len() + 45),
{
    piece_header_8(src, b);
    piece_write_set_1(src, b + 1);
    lemma_holds_bounds(src, b + 35, store);
    piece_write_set_3(src, b + store.len() + 35);
    lemma_holds_bounds(src, b + store.len() + 43, store);
    piece_read_set_3(src, b + store.len() + store.len() + 43);
    lemma_blank_join(src, b, 1, 2);
    lemma_lands_start(src, b + 4);
    let r1 = Seq::<Form>::empty();
    lemma_blank_zero(src, b + 4);
    word_effect_set();
    step_symbol(src, b + 4, r1, b + 4, 0, "effect-set"@);
    let r2 = r1.push(sym("effect-set"@));
    word_db_write();
    step_symbol(src, b + 4, r2, b + 14, 1, "db-write"@);
    let r3 = r2.push(sym("db-write"@));
    lemma_lands_start(src, b + 27);
    let r4 = Seq::<Form>::empty();
    lemma_blank_zero(src, b + 27);
    word_writes();
    step_keyword(src, b + 27, r4, b + 27, 0, "writes"@);
    let r5 = r4.push(kw("writes"@));
    step_symbol(src, b + 27, r5, b + 34, 1, store);
    let r6 = r5.push(sym(store));
    word_reads();
    step_keyword(src, b + 27, r6, b + store.len() + 35, 1, "reads"@);
    let r7 = r6.push(kw("reads"@));
    step_symbol(src, b + 27, r7, b + store.len() + 42, 1, store);
    let r8 = r7.push(sym(store));
    lemma_blank_zero(src, b + store.len() + store.len() + 43);
    lemma_lands_blank(src, b + 27, r8, b + store.len() + store.len() + 43, 0);
    step_vector(src, b + 4, r3, b + 23, 3, r8, b + store.len() + store.len() + 43);
    let r9 = r3.push(Form::Vector(r8));
    lemma_blank_zero(src, b + store.len() + store.len() + 44);
    lemma_lands_blank(src, b + 4, r9, b + store.len() + store.len() + 44, 0);
    step_list(src, p, a, b, 3, r9, b + store.len() + store.len() + 44);
    let r10 = a.push(Form::List(r9));
    lemma_blank_zero(src, b + store.len() + store.len() + 45);
}

/// `acc` followed by the text of the effect set of writes.
pub open spec fn write_set_text(acc: Seq<char>, store: Seq<char>) -> Seq<char> {
    acc + "\n"@ + "  (effect-set db-write   [:writes "@ + store + " :reads "@ + store + "])"@
}

/// Where the effect set of writes is written behind `acc`, `acc` is written before it.
pub proof fn write_set_cut(src: Seq<char>, x: int, acc: Seq<char>, store: Seq<char>)
    requires
        holds(src, x, write_set_text(acc, store)),
    ensures
        holds(src, x, acc),
        x + (write_set_text(acc, store)).len() == x + acc.len() + store.len() + store.len() + 45,
        !cont_at(src, x + acc.len()),
{
    let t1 = acc + "\n"@;
    let t2 = t1 + "  (effect-set db-write   [:writes "@;
    let t3 = t2 + store;
    let t4 = t3 + " :reads "@;
    let t5 = t4 + store;
    lemma_holds_split(src, x, t5, "])"@);
    reveal_strlit("])");
    lemma_holds_split(src, x, t4, store);
    lemma_holds_split(src, x, t3, " :reads "@);
    reveal_strlit(" :reads ");
    lemma_holds_split(src, x, t2, store);
    lemma_holds_split(src, x, t1, "  (effect-set db-write   [:writes "@);
    reveal_strlit("  (effect-set db-write   [:writes ");
    lemma_holds_split(src, x, acc, "\n"@);
    reveal_strlit("\n");
    lemma_first_char(src, x + acc.len(), "\n"@);
}

/// The text of the effect set of writes, written behind `acc`, holds its forms.
pub proof fn write_set_at(
    src: Seq<char>,
    p: int,
    a: Seq<Form>,
    x: int,
    acc: Seq<char>,
    store: Seq<char>,
)
    requires
        holds(src, x, write_set_text(acc, store)),
        lands(src, p, a, x + acc.len()),
        symbol_text(store),
    ensures
        lands(src, p, write_set_run(a, store), x + write_set_text(acc, store).len()),
{
    let t1 = acc + "\n"@;
    let t2 = t1 + "  (effect-set db-write   [:writes "@;
    let t3 = t2 + store;
    let t4 = t3 + " :reads "@;
    let t5 = t4 + store;
    lemma_holds_split(src, x, t5, "])"@);
    reveal_strlit("])");
    lemma_holds_split(src, x, t4, store);
    lemma_holds_split(src, x, t3, " :reads "@);
    reveal_strlit(" :reads ");
    lemma_holds_split(src, x, t2, store);
    lemma_holds_split(src, x, t1, "  (effect-set db-write   [:writes "@);
    reveal_strlit("  (effect-set db-write   [:writes ");
    lemma_holds_split(src, x, acc, "\n"@);
    reveal_strlit("\n");
    lemma_write_set(src, p, a, x + acc.len(), store);
}

/// `a` followed by the forms of the effect set of responses.
pub open spec fn respond_set_run(a: Seq<Form>) -> Seq<Form> {
    a
        .push(
            Form::List(
                Seq::<Form>::empty()
                    .push(sym("effect-set"@))
                    .push(sym("http-respond"@))
                    .push(
                        Form::Vector(
                            Seq::<Form>::empty().push(kw("sends"@)).push(sym("http-response"@)),
                        ),
                    ),
            ),
        )
}

/// The text of the effect set of responses holds its forms.
pub proof fn lemma_respond_set(src: Seq<char>, p: int, a: Seq<Form>, b: int)
    requires
        lands(src, p, a, b),
        holds(src, b, "\n"@),
        holds(src, b + 1, "  (effect-set http-respond [:sends http-response])"@),
    ensures
        lands(src, p, respond_set_run(a), b + 51),
{
    piece_header_8(src, b);
    piece_respond_set_1(src, b + 1);
    lemma_blank_join(src, b, 1, 2);
    lemma_lands_start(src, b + 4);
    let r1 = Seq::<Form>::empty();
    lemma_blank_zero(src, b + 4);
    word_effect_set();
    step_symbol(src, b + 4, r1, b + 4, 0, "effect-set"@);
    let r2 = r1.push(sym("effect-set"@));
    word_http_respond();
    step_symbol(src, b + 4, r2, b + 14, 1, "http-respond"@);
    let r3 = r2.push(sym("http-respond"@));
    lemma_lands_start(src, b + 29);
    let r4 = Seq::<Form>::empty();
    lemma_blank_zero(src, b + 29);
    word_sends();
    step_keyword(src, b + 29, r4, b + 29, 0, "sends"@);
    let r5 = r4.push(kw("sends"@));
    word_http_response();
    step_symbol(src, b + 29, r5, b + 35, 1, "http-response"@);
    let r6 = r5.push(sym("http-response"@));
    lemma_blank_zero(src, b + 49);
    lemma_lands_blank(src, b + 29, r6, b + 49, 0);
    step_vector(src, b + 4, r3, b + 27, 1, r6, b + 49);
    let r7 = r3.push(Form::Vector(r6));
    lemma_blank_zero(src, b + 50);
    lemma_lands_blank(src, b + 4, r7, b + 50, 0);
    step_list(src, p, a, b, 3, r7, b + 50);
    let r8 = a.push(Form::List(r7));
    lemma_blank_zero(src, b + 51);
}

/// `acc` followed by the text of the effect set of responses.
pub open spec fn respond_set_text(acc: Seq<char>) -> Seq<char> {
    acc + "\n"@ + "  (effect-set http-respond [:sends http-response])"@
}

/// Where the effect set of responses is written behind `acc`, `acc` is written before it.
pub proof fn respond_set_cut(src: Seq<char>, x: int, acc: Seq<char>)
    requires
        holds(src, x, respond_set_text(acc)),
    ensures
        holds(src, x, acc),
        x + (respond_set_text(acc)).len() == x + acc.len() + 51,
        !cont_at(src, x + acc.len()),
{
    let t1 = acc + "\n"@;
    lemma_holds_split(src, x, t1, "  (effect-set http-respond [:sends http-response])"@);
    reveal_strlit("  (effect-set http-respond [:sends http-response])");
    lemma_holds_split(src, x, acc, "\n"@);
    reveal_strlit("\n");
    lemma_first_char(src, x + acc.len(), "\n"@);
}

/// The text of the effect set of responses, written behind `acc`, holds its forms.
pub proof fn respond_set_at(src: Seq<char>, p: int, a: Seq<Form>, x: int, acc: Seq<char>)
    requires
        holds(src, x, respond_set_text(acc)),
        lands(src, p, a, x + acc.len()),
    ensures
        lands(src, p, respond_set_run(a), x + respond_set_text(acc).len()),
{
    let t1 = acc + "\n"@;
    lemma_holds_split(src, x, t1, "  (effect-set http-respond [:sends http-response])"@);
    reveal_strlit("  (effect-set http-respond [:sends http-response])");
    lemma_holds_split(src, x, acc, "\n"@);
    reveal_strlit("\n");
    lemma_respond_set(src, p, a, x + acc.len());
}

/// `a` followed by the forms of the head of a function.
pub open spec fn fn_open_run(a: Seq<Form>, name: Seq<char>, spec_id: Seq<char>) -> Seq<Form> {
    a
}

/// The forms inside the container that the head of a function opens.
pub open spec fn fn_open_inner(name: Seq<char>, spec_id: Seq<char>) -> Seq<Form> {
    Seq::<Form>::empty()
        .push(sym("fn"@))
        .push(sym(name))
        .push(kw("provenance"@))
        .push(Form::Record(Seq::<(Form, Form)>::empty().push((sym("req"@), quoted(spec_id)))))
        .push(kw("effects"@))
}

/// The text of the head of a function holds its forms.
pub proof fn lemma_fn_open(
    src: Seq<char>,
    p: int,
    a: Seq<Form>,
    b: int,
    name: Seq<char>,
    spec_id: Seq<char>,
)
    requires
        lands(src, p, a, b),
        holds(src, b, "\n"@),
        holds(src, b + 1, "\n"@),
        holds(src, b + 2, "  (fn "@),
        holds(src, b + 8, name),
        holds(src, b + name.len() + 8, "\n"@),
        holds(src, b + name.len() + 9, "    :provenance {req: \""@),
        holds(src, b + name.len() + 32, spec_id),
        holds(src, b + name.len() + spec_id.len() + 32, "\"}"@),
        holds(src, b + name.len() + spec_id.len() + 34, "\n"@),
        holds(src, b + name.len() + spec_id.len() + 35, "    :effects    "@),
        symbol_text(name),
        string_text(spec_id),
    ensures
        lands(src, p, fn_open_run(a, name, spec_id), b),
        blank(src, b, 4),
        b + 4 < src.len(),
        src[b + 4] == '(',
        lands(src, b + 5, fn_open_inner(name, spec_id), b + name.len() + spec_id.len() + 51),
{
    piece_header_8(src, b);
    piece_header_8(src, b + 1);
    piece_fn_open_2(src, b + 2);
    lemma_holds_bounds(src, b + 8, name);
    piece_header_2(src, b + name.len() + 8);
    piece_fn_open_5(src, b + name.len() + 9);
    lemma_holds_bounds(src, b + name.len() + 32, spec_id);
    piece_header_7(src, b + name.len() + spec_id.len() + 32);
    piece_header_8(src, b + name.len() + spec_id.len() + 34);
    piece_fn_open_9(src, b + name.len() + spec_id.len() + 35);
    lemma_blank_join(src, b, 1, 1);
    lemma_blank_join(src, b, 2, 2);
    lemma_lands_start(src, b + 5);
    let r1 = Seq::<Form>::empty();
    lemma_blank_zero(src, b + 5);
    word_fn();
    step_symbol(src, b + 5, r1, b + 5, 0, "fn"@);
    let r2 = r1.push(sym("fn"@));
    step_symbol(src, b + 5, r2, b + 7, 1, name);
    let r3 = r2.push(sym(name));
    lemma_blank_join(src, b + name.len() + 8, 1, 4);
    word_provenance();
    step_keyword(src, b + 5, r3, b + name.len() + 8, 5, "provenance"@);
    let r4 = r3.push(kw("provenance"@));
    lemma_mark(src, b + name.len() + 24, 1, '{');
    lemma_blank_zero(src, b + name.len() + 26);
    word_req();
    lemma_symbol(src, b + name.len() + 26, 0, "req"@);
    lemma_blank_zero(src, b + name.len() + 29);
    lemma_colon(src, b + name.len() + 29, 0);
    lemma_string(src, b + name.len() + 30, 1, spec_id);
    lemma_blank_zero(src, b + name.len() + spec_id.len() + 33);
    lemma_mark(src, b + name.len() + spec_id.len() + 33, 0, '}');
    let entries = Seq::<(Form, Form)>::empty().push((sym("req"@), quoted(spec_id)));
    lemma_record_done(src, b + name.len() + spec_id.len() + 33, entries);
    assert(entries[0] == (sym("req"@), quoted(spec_id)));
    lemma_record_entry(
        src,
        b + name.len() + 26,
        entries,
        0,
        "req"@,
        spec_id,
        b + name.len() + 29,
        b + name.len() + 30,
        b + name.len() + spec_id.len() + 33,
        b + name.len() + spec_id.len() + 33,
    );
    step_record(
        src,
        b + 5,
        r4,
        b + name.len() + 24,
        entries,
        b + name.len() + 26,
        b + name.len() + spec_id.len() + 33,
        b + name.len() + spec_id.len() + 34,
    );
    let r5 = r4.push(Form::Record(entries));
    lemma_blank_join(src, b + name.len() + spec_id.len() + 34, 1, 4);
    word_effects();
    step_keyword(src, b + 5, r5, b + name.len() + spec_id.len() + 34, 5, "effects"@);
    let r6 = r5.push(kw("effects"@));
    lemma_lands_blank(src, b + 5, r6, b + name.len() + spec_id.len() + 47, 4);
}

/// `acc` followed by the text of the head of a function.
pub open spec fn fn_open_text(acc: Seq<char>, name: Seq<char>, spec_id: Seq<char>) -> Seq<char> {
    acc
        + "\n"@
        + "\n"@
        + "  (fn "@
        + name
        + "\n"@
        + "    :provenance {req: \""@
        + spec_id
        + "\"}"@
        + "\n"@
        + "    :effects    "@
}

/// Where the head of a function is written behind `acc`, `acc` is written before it.
pub proof fn fn_open_cut(
    src: Seq<char>,
    x: int,
    acc: Seq<char>,
    name: Seq<char>,
    spec_id: Seq<char>,
)
    requires
        holds(src, x, fn_open_text(acc, name, spec_id)),
    ensures
        holds(src, x, acc),
        x + (fn_open_text(acc, name, spec_id)).len()
            == x + acc.len() + name.len() + spec_id.len() + 51,
        !cont_at(src, x + acc.len()),
{
    let t1 = acc + "\n"@;
    let t2 = t1 + "\n"@;
    let t3 = t2 + "  (fn "@;
    let t4 = t3 + name;
    let t5 = t4 + "\n"@;
    let t6 = t5 + "    :provenance {req: \""@;
    let t7 = t6 + spec_id;
    let t8 = t7 + "\"}"@;
    let t9 = t8 + "\n"@;
    lemma_holds_split(src, x, t9, "    :effects    "@);
    reveal_strlit("    :effects    ");
    lemma_holds_split(src, x, t8, "\n"@);
    reveal_strlit("\n");
    lemma_holds_split(src, x, t7, "\"}"@);
    reveal_strlit("\"}");
    lemma_holds_split(src, x, t6, spec_id);
    lemma_holds_split(src, x, t5, "    :provenance {req: \""@);
    reveal_strlit("    :provenance {req: \"");
    lemma_holds_split(src, x, t4, "\n"@);
    reveal_strlit("\n");
    lemma_holds_split(src, x, t3, name);
    lemma_holds_split(src, x, t2, "  (fn "@);
    reveal_strlit("  (fn ");
    lemma_holds_split(src, x, t1, "\n"@);
    reveal_strlit("\n");
    lemma_holds_split(src, x, acc, "\n"@);
    reveal_strlit("\n");
    lemma_first_char(src, x + acc.len(), "\n"@);
}

/// The text of the head of a function, written behind `acc`, holds its forms.
pub proof fn fn_open_at(
    src: Seq<char>,
    p: int,
    a: Seq<Form>,
    x: int,
    acc: Seq<char>,
    name: Seq<char>,
    spec_id: Seq<char>,
)
    requires
        holds(src, x, fn_open_text(acc, name, spec_id)),
        lands(src, p, a, x + acc.len()),
        symbol_text(name),
        string_text(spec_id),
    ensures
        lands(src, p, fn_open_run(a, name, spec_id), x + acc.len()),
        blank(src, x + acc.len(), 4),
        x + acc.len() + 4 < src.len(),
        src[x + acc.len() + 4] == '(',
        lands(
            src,
            x + acc.len() + 5,
            fn_open_inner(name, spec_id),
            x + fn_open_text(acc, name, spec_id).len(),
        ),
{
    let t1 = acc + "\n"@;
    let t2 = t1 + "\n"@;
    let t3 = t2 + "  (fn "@;
    let t4 = t3 + name;
    let t5 = t4 + "\n"@;
    let t6 = t5 + "    :provenance {req: \""@;
    let t7 = t6 + spec_id;
    let t8 = t7 + "\"}"@;
    let t9 = t8 + "\n"@;
    lemma_holds_split(src, x, t9, "    :effects    "@);
    reveal_strlit("    :effects    ");
    lemma_holds_split(src, x, t8, "\n"@);
    reveal_strlit("\n");
    lemma_holds_split(src, x, t7, "\"}"@);
    reveal_strlit("\"}");
    lemma_holds_split(src, x, t6, spec_id);
    lemma_holds_split(src, x, t5, "    :provenance {req: \""@);
    reveal_strlit("    :provenance {req: \"");
    lemma_holds_split(src, x, t4, "\n"@);
    reveal_strlit("\n");
    lemma_holds_split(src, x, t3, name);
    lemma_holds_split(src, x, t2, "  (fn "@);
    reveal_strlit("  (fn ");
    lemma_holds_split(src, x, t1, "\n"@);
    reveal_strlit("\n");
    lemma_holds_split(src, x, acc, "\n"@);
    reveal_strlit("\n");
    lemma_fn_open(src, p, a, x + acc.len(), name, spec_id);
}

/// `a` followed by the forms of the effects of a writing function.
pub open spec fn effects_write_run(a: Seq<Form>) -> Seq<Form> {
    a.push(Form::Vector(Seq::<Form>::empty().push(sym("db-write"@)).push(sym("http-respond"@))))
}

/// The text of the effects of a writing function holds its forms.
pub proof fn lemma_effects_write(src: Seq<char>, p: int, a: Seq<Form>, b: int)
    requires
        lands(src, p, a, b),
        holds(src, b, "[db-write http-respond]"@),
    ensures
        lands(src, p, effects_write_run(a), b + 23),
{
    piece_effects_write_0(src, b);
    lemma_blank_zero(src, b);
    lemma_lands_start(src, b + 1);
    let r1 = Seq::<Form>::empty();
    lemma_blank_zero(src, b + 1);
    word_db_write();
    step_symbol(src, b + 1, r1, b + 1, 0, "db-write"@);
    let r2 = r1.push(sym("db-write"@));
    word_http_respond();
    step_symbol(src, b + 1, r2, b + 9, 1, "http-respond"@);
    let r3 = r2.push(sym("http-respond"@));
    lemma_blank_zero(src, b + 22);
    lemma_lands_blank(src, b + 1, r3, b + 22, 0);
    step_vector(src, p, a, b, 0, r3, b + 22);
    let r4 = a.push(Form::Vector(r3));
    lemma_blank_zero(src, b + 23);
}

/// `acc` followed by the text of the effects of a writing function.
pub open spec fn effects_write_text(acc: Seq<char>) -> Seq<char> {
    acc + "[db-write http-respond]"@
}

/// Where the effects of a writing function is written behind `acc`, `acc` is written before it.
pub proof fn effects_write_cut(src: Seq<char>, x: int, acc: Seq<char>)
    requires
        holds(src, x, effects_write_text(acc)),
    ensures
        holds(src, x, acc),
        x + (effects_write_text(acc)).len() == x + acc.len() + 23,
        !cont_at(src, x + acc.len()),
{
    lemma_holds_split(src, x, acc, "[db-write http-respond]"@);
    reveal_strlit("[db-write http-respond]");
    lemma_first_char(src, x + acc.len(), "[db-write http-respond]"@);
}

/// The text of the effects of a writing function, written behind `acc`, holds its forms.
pub proof fn effects_write_at(src: Seq<char>, p: int, a: Seq<Form>, x: int, acc: Seq<char>)
    requires
        holds(src, x, effects_write_text(acc)),
        lands(src, p, a, x + acc.len()),
    ensures
        lands(src, p, effects_write_run(a), x + effects_write_text(acc).len()),
{
    lemma_holds_split(src, x, acc, "[db-write http-respond]"@);
    reveal_strlit("[db-write http-respond]");
    lemma_effects_write(src, p, a, x + acc.len());
}

/// `a` followed by the forms of the effects of a reading function.
pub open spec fn effects_read_run(a: Seq<Form>) -> Seq<Form> {
    a.push(Form::Vector(Seq::<Form>::empty().push(sym("db-read"@)).push(sym("http-respond"@))))
}

/// The text of the effects of a reading function holds its forms.
pub proof fn lemma_effects_read(src: Seq<char>, p: int, a: Seq<Form>, b: int)
    requires
        lands(src, p, a, b),
        holds(src, b, "[db-read http-respond]"@),
    ensures
        lands(src, p, effects_read_run(a), b + 22),
{
    piece_effects_read_0(src, b);
    lemma_blank_zero(src, b);
    lemma_lands_start(src, b + 1);
    let r1 = Seq::<Form>::empty();
    lemma_blank_zero(src, b + 1);
    word_db_read();
    step_symbol(src, b + 1, r1, b + 1, 0, "db-read"@);
    let r2 = r1.push(sym("db-read"@));
    word_http_respond();
    step_symbol(src, b + 1, r2, b + 8, 1, "http-respond"@);
    let r3 = r2.push(sym("http-respond"@));
    lemma_blank_zero(src, b + 21);
    lemma_lands_blank(src, b + 1, r3, b + 21, 0);
    step_vector(src, p, a, b, 0, r3, b + 21);
    let r4 = a.push(Form::Vector(r3));
    lemma_blank_zero(src, b + 22);
}

/// `acc` followed by the text of the effects of a reading function.
pub open spec fn effects_read_text(acc: Seq<char>) -> Seq<char> {
    acc + "[db-read http-respond]"@
}

/// Where the effects of a reading function is written behind `acc`, `acc` is written before it.
pub proof fn effects_read_cut(src: Seq<char>, x: int, acc: Seq<char>)
    requires
        holds(src, x, effects_read_text(acc)),
    ensures
        holds(src, x, acc),
        x + (effects_read_text(acc)).len() == x + acc.len() + 22,
        !cont_at(src, x + acc.len()),
{
    lemma_holds_split(src, x, acc, "[db-read http-respond]"@);
    reveal_strlit("[db-read http-respond]");
    lemma_first_char(src, x + acc.len(), "[db-read http-respond]"@);
}

/// The text of the effects of a reading function, written behind `acc`, holds its forms.
pub proof fn effects_read_at(src: Seq<char>, p: int, a: Seq<Form>, x: int, acc: Seq<char>)
    requires
        holds(src, x, effects_read_text(acc)),
        lands(src, p, a, x + acc.len()),
    ensures
        lands(src, p, effects_read_run(a), x + effects_read_text(acc).len()),
{
    lemma_holds_split(src, x, acc, "[db-read http-respond]"@);
    reveal_strlit("[db-read http-respond]");
    lemma_effects_read(src, p, a, x + acc.len());
}

/// `a` followed by the forms of the effects of a responding function.
pub open spec fn effects_none_run(a: Seq<Form>) -> Seq<Form> {
    a.push(Form::Vector(Seq::<Form>::empty().push(sym("http-respond"@))))
}

/// The text of the effects of a responding function holds its forms.
pub proof fn lemma_effects_none(src: Seq<char>, p: int, a: Seq<Form>, b: int)
    requires
        lands(src, p, a, b),
        holds(src, b, "[http-respond]"@),
    ensures
        lands(src, p, effects_none_run(a), b + 14),
{
    piece_effects_none_0(src, b);
    lemma_blank_zero(src, b);
    lemma_lands_start(src, b + 1);
    let r1 = Seq::<Form>::empty();
    lemma_blank_zero(src, b + 1);
    word_http_respond();
    step_symbol(src, b + 1, r1, b + 1, 0, "http-respond"@);
    let r2 = r1.push(sym("http-respond"@));
    lemma_blank_zero(src, b + 13);
    lemma_lands_blank(src, b + 1, r2, b + 13, 0);
    step_vector(src, p, a, b, 0, r2, b + 13);
    let r3 = a.push(Form::Vector(r2));
    lemma_blank_zero(src, b + 14);
}

/// `acc` followed by the text of the effects of a responding function.
pub open spec fn effects_none_text(acc: Seq<char>) -> Seq<char> {
    acc + "[http-respond]"@
}

/// Where the effects of a responding function is written behind `acc`, `acc` is written before it.
pub proof fn effects_none_cut(src: Seq<char>, x: int, acc: Seq<char>)
    requires
        holds(src, x, effects_none_text(acc)),
    ensures
        holds(src, x, acc),
        x + (effects_none_text(acc)).len() == x + acc.len() + 14,
        !cont_at(src, x + acc.len()),
{
    lemma_holds_split(src, x, acc, "[http-respond]"@);
    reveal_strlit("[http-respond]");
    lemma_first_char(src, x + acc.len(), "[http-respond]"@);
}

/// The text of the effects of a responding function, written behind `acc`, holds its forms.
pub proof fn effects_none_at(src: Seq<char>, p: int, a: Seq<Form>, x: int, acc: Seq<char>)
    requires
        holds(src, x, effects_none_text(acc)),
        lands(src, p, a, x + acc.len()),
    ensures
        lands(src, p, effects_none_run(a), x + effects_none_text(acc).len()),
{
    lemma_holds_split(src, x, acc, "[http-respond]"@);
    reveal_strlit("[http-respond]");
    lemma_effects_none(src, p, a, x + acc.len());
}

/// `a` followed by the forms of the total flag.
pub open spec fn total_run(a: Seq<Form>) -> Seq<Form> {
    a.push(kw("total"@)).push(Form::Atom(AtomView::BoolLit(true)))
}

/// The text of the total flag holds its forms.
pub proof fn lemma_total(src: Seq<char>, p: int, a: Seq<Form>, b: int)
    requires
        lands(src, p, a, b),
        holds(src, b, "    :total      true"@),
        holds(src, b + 20, "\n"@),
    ensures
        lands(src, p, total_run(a), b + 21),
{
    piece_total_0(src, b);
    piece_header_2(src, b + 20);
    word_total();
    step_keyword(src, p, a, b, 4, "total"@);
    let r1 = a.push(kw("total"@));
    step_true(src, p, r1, b + 10, 6);
    let r2 = r1.push(Form::Atom(AtomView::BoolLit(true)));
    lemma_lands_blank(src, p, r2, b + 20, 1);
}

/// `acc` followed by the text of the total flag.
pub open spec fn total_text(acc: Seq<char>) -> Seq<char> {
    acc + "    :total      true"@ + "\n"@
}

/// Where the total flag is written behind `acc`, `acc` is written before it.
pub proof fn total_cut(src: Seq<char>, x: int, acc: Seq<char>)
    requires
        holds(src, x, total_text(acc)),
    ensures
        holds(src, x, acc),
        x + (total_text(acc)).len() == x + acc.len() + 21,
        !cont_at(src, x + acc.len()),
{
    let t1 = acc + "    :total      true"@;
    lemma_holds_split(src, x, t1, "\n"@);
    reveal_strlit("\n");
    lemma_holds_split(src, x, acc, "    :total      true"@);
    reveal_strlit("    :total      true");
    lemma_first_char(src, x + acc.len(), "    :total      true"@);
}

/// The text of the total flag, written behind `acc`, holds its forms.
pub proof fn total_at(src: Seq<char>, p: int, a: Seq<Form>, x: int, acc: Seq<char>)
    requires
        holds(src, x, total_text(acc)),
        lands(src, p, a, x + acc.len()),
    ensures
        lands(src, p, total_run(a), x + total_text(acc).len()),
{
    let t1 = acc + "    :total      true"@;
    lemma_holds_split(src, x, t1, "\n"@);
    reveal_strlit("\n");
    lemma_holds_split(src, x, acc, "    :total      true"@);
    reveal_strlit("    :total      true");
    lemma_total(src, p, a, x + acc.len());
}

/// `a` followed by the forms of a latency budget.
pub open spec fn latency_run(a: Seq<Form>, v: nat, u: DurationUnit) -> Seq<Form> {
    a.push(kw("latency-budget"@)).push(Form::Atom(AtomView::DurationLit(v as u64, u)))
}

/// The text of a latency budget holds its forms.
pub proof fn lemma_latency(src: Seq<char>, p: int, a: Seq<Form>, b: int, v: nat, u: DurationUnit)
    requires
        lands(src, p, a, b),
        holds(src, b, "    :latency-budget "@),
        holds(src, b + 20, (dec(v) + u.suffix())),
        holds(src, b + (dec(v) + u.suffix()).len() + 20, "\n"@),
        v <= u64::MAX,
    ensures
        lands(src, p, latency_run(a, v, u), b + (dec(v) + u.suffix()).len() + 21),
{
    piece_latency_0(src, b);
    lemma_holds_bounds(src, b + 20, (dec(v) + u.suffix()));
    piece_header_2(src, b + (dec(v) + u.suffix()).len() + 20);
    word_latency_budget();
    step_keyword(src, p, a, b, 4, "latency-budget"@);
    let r1 = a.push(kw("latency-budget"@));
    step_duration(src, p, r1, b + 19, 1, v, u);
    let r2 = r1.push(Form::Atom(AtomView::DurationLit(v as u64, u)));
    lemma_lands_blank(src, p, r2, b + (dec(v) + u.suffix()).len() + 20, 1);
}

/// `acc` followed by the text of a latency budget.
pub open spec fn latency_text(acc: Seq<char>, v: nat, u: DurationUnit) -> Seq<char> {
    acc + "    :latency-budget "@ + (dec(v) + u.suffix()) + "\n"@
}

/// Where a latency budget is written behind `acc`, `acc` is written before it.
pub proof fn latency_cut(src: Seq<char>, x: int, acc: Seq<char>, v: nat, u: DurationUnit)
    requires
        holds(src, x, latency_text(acc, v, u)),
    ensures
        holds(src, x, acc),
        x + (latency_text(acc, v, u)).len() == x + acc.len() + (dec(v) + u.suffix()).len() + 21,
        !cont_at(src, x + acc.len()),
{
    let t1 = acc + "    :latency-budget "@;
    let t2 = t1 + (dec(v) + u.suffix());
    lemma_holds_split(src, x, t2, "\n"@);
    reveal_strlit("\n");
    lemma_holds_split(src, x, t1, (dec(v) + u.suffix()));
    lemma_holds_split(src, x, acc, "    :latency-budget "@);
    reveal_strlit("    :latency-budget ");
    lemma_first_char(src, x + acc.len(), "    :latency-budget "@);
}

/// The text of a latency budget, written behind `acc`, holds its forms.
pub proof fn latency_at(
    src: Seq<char>,
    p: int,
    a: Seq<Form>,
    x: int,
    acc: Seq<char>,
    v: nat,
    u: DurationUnit,
)
    requires
        holds(src, x, latency_text(acc, v, u)),
        lands(src, p, a, x + acc.len()),
        v <= u64::MAX,
    ensures
        lands(src, p, latency_run(a, v, u), x + latency_text(acc, v, u).len()),
{
    let t1 = acc + "    :latency-budget "@;
    let t2 = t1 + (dec(v) + u.suffix());
    lemma_holds_split(src, x, t2, "\n"@);
    reveal_strlit("\n");
    lemma_holds_split(src, x, t1, (dec(v) + u.suffix()));
    lemma_holds_split(src, x, acc, "    :latency-budget "@);
    reveal_strlit("    :latency-budget ");
    lemma_latency(src, p, a, x + acc.len(), v, u);
}

/// `a` followed by the forms of an idempotency key.
pub open spec fn idempotency_run(a: Seq<Form>, field: Seq<char>) -> Seq<Form> {
    a
        .push(kw("idempotency-key"@))
        .push(
            Form::List(
                Seq::<Form>::empty()
                    .push(sym("hash"@))
                    .push(
                        Form::List(
                            Seq::<Form>::empty()
                                .push(sym("."@))
                                .push(sym("input"@))
                                .push(sym(field)),
                        ),
                    ),
            ),
        )
}

/// The text of an idempotency key holds its forms.
pub proof fn lemma_idempotency(src: Seq<char>, p: int, a: Seq<Form>, b: int, field: Seq<char>)
    requires
        lands(src, p, a, b),
        holds(src, b, "    :idempotency-key (hash (. input "@),
        holds(src, b + 36, field),
        holds(src, b + field.len() + 36, "))"@),
        holds(src, b + field.len() + 38, "\n"@),
        symbol_text(field),
    ensures
        lands(src, p, idempotency_run(a, field), b + field.len() + 39),
{
    piece_idempotency_0(src, b);
    lemma_holds_bounds(src, b + 36, field);
    piece_idempotency_2(src, b + field.len() + 36);
    piece_header_8(src, b + field.len() + 38);
    word_idempotency_key();
    step_keyword(src, p, a, b, 4, "idempotency-key"@);
    let r1 = a.push(kw("idempotency-key"@));
    lemma_lands_start(src, b + 22);
    let r2 = Seq::<Form>::empty();
    lemma_blank_zero(src, b + 22);
    word_hash();
    step_symbol(src, b + 22, r2, b + 22, 0, "hash"@);
    let r3 = r2.push(sym("hash"@));
    lemma_lands_start(src, b + 28);
    let r4 = Seq::<Form>::empty();
    lemma_blank_zero(src, b + 28);
    word_w2e();
    step_symbol(src, b + 28, r4, b + 28, 0, "."@);
    let r5 = r4.push(sym("."@));
    word_input();
    step_symbol(src, b + 28, r5, b + 29, 1, "input"@);
    let r6 = r5.push(sym("input"@));
    step_symbol(src, b + 28, r6, b + 35, 1, field);
    let r7 = r6.push(sym(field));
    lemma_blank_zero(src, b + field.len() + 36);
    lemma_lands_blank(src, b + 28, r7, b + field.len() + 36, 0);
    step_list(src, b + 22, r3, b + 26, 1, r7, b + field.len() + 36);
    let r8 = r3.push(Form::List(r7));
    lemma_blank_zero(src, b + field.len() + 37);
    lemma_lands_blank(src, b + 22, r8, b + field.len() + 37, 0);
    step_list(src, p, r1, b + 20, 1, r8, b + field.len() + 37);
    let r9 = r1.push(Form::List(r8));
    lemma_lands_blank(src, p, r9, b + field.len() + 38, 1);
}

/// `acc` followed by the text of an idempotency key.
pub open spec fn idempotency_text(acc: Seq<char>, field: Seq<char>) -> Seq<char> {
    acc + "    :idempotency-key (hash (. input "@ + field + "))"@ + "\n"@
}

/// Where an idempotency key is written behind `acc`, `acc` is written before it.
pub proof fn idempotency_cut(src: Seq<char>, x: int, acc: Seq<char>, field: Seq<char>)
    requires
        holds(src, x, idempotency_text(acc, field)),
    ensures
        holds(src, x, acc),
        x + (idempotency_text(acc, field)).len() == x + acc.len() + field.len() + 39,
        !cont_at(src, x + acc.len()),
{
    let t1 = acc + "    :idempotency-key (hash (. input "@;
    let t2 = t1 + field;
    let t3 = t2 + "))"@;
    lemma_holds_split(src, x, t3, "\n"@);
    reveal_strlit("\n");
    lemma_holds_split(src, x, t2, "))"@);
    reveal_strlit("))");
    lemma_holds_split(src, x, t1, field);
    lemma_holds_split(src, x, acc, "    :idempotency-key (hash (. input "@);
    reveal_strlit("    :idempotency-key (hash (. input ");
    lemma_first_char(src, x + acc.len(), "    :idempotency-key (hash (. input "@);
}

/// The text of an idempotency key, written behind `acc`, holds its forms.
pub proof fn idempotency_at(
    src: Seq<char>,
    p: int,
    a: Seq<Form>,
    x: int,
    acc: Seq<char>,
    field: Seq<char>,
)
    requires
        holds(src, x, idempotency_text(acc, field)),
        lands(src, p, a, x + acc.len()),
        symbol_text(field),
    ensures
        lands(src, p, idempotency_run(a, field), x + idempotency_text(acc, field).len()),
{
    let t1 = acc + "    :idempotency-key (hash (. input "@;
    let t2 = t1 + field;
    let t3 = t2 + "))"@;
    lemma_holds_split(src, x, t3, "\n"@);
    reveal_strlit("\n");
    lemma_holds_split(src, x, t2, "))"@);
    reveal_strlit("))");
    lemma_holds_split(src, x, t1, field);
    lemma_holds_split(src, x, acc, "    :idempotency-key (hash (. input "@);
    reveal_strlit("    :idempotency-key (hash (. input ");
    lemma_idempotency(src, p, a, x + acc.len(), field);
}

/// `a` followed by the forms of the head of the callers.
pub open spec fn called_open_run(a: Seq<Form>) -> Seq<Form> {
    a.push(kw("called-by"@))
}

/// The forms inside the container that the head of the callers opens.
pub open spec fn called_open_inner() -> Seq<Form> {
    Seq::<Form>::empty()
}

/// The text of the head of the callers holds its forms.
pub proof fn lemma_called_open(src: Seq<char>, p: int, a: Seq<Form>, b: int)
    requires
        lands(src, p, a, b),
        holds(src, b, "    :called-by  ["@),
    ensures
        lands(src, p, called_open_run(a), b + 14),
        blank(src, b + 14, 2),
        b + 16 < src.len(),
        src[b + 16] == '[',
        lands(src, b + 17, called_open_inner(), b + 17),
{
    piece_called_open_0(src, b);
    word_called_by();
    step_keyword(src, p, a, b, 4, "called-by"@);
    let r1 = a.push(kw("called-by"@));
    lemma_lands_start(src, b + 17);
    let r2 = Seq::<Form>::empty();
    lemma_blank_zero(src, b + 17);
}

/// `acc` followed by the text of the head of the callers.
pub open spec fn called_open_text(acc: Seq<char>) -> Seq<char> {
    acc + "    :called-by  ["@
}

/// Where the head of the callers is written behind `acc`, `acc` is written before it.
pub proof fn called_open_cut(src: Seq<char>, x: int, acc: Seq<char>)
    requires
        holds(src, x, called_open_text(acc)),
    ensures
        holds(src, x, acc),
        x + (called_open_text(acc)).len() == x + acc.len() + 17,
        !cont_at(src, x + acc.len()),
{
    lemma_holds_split(src, x, acc, "    :called-by  ["@);
    reveal_strlit("    :called-by  [");
    lemma_first_char(src, x + acc.len(), "    :called-by  ["@);
}

/// The text of the head of the callers, written behind `acc`, holds its forms.
pub proof fn called_open_at(src: Seq<char>, p: int, a: Seq<Form>, x: int, acc: Seq<char>)
    requires
        holds(src, x, called_open_text(acc)),
        lands(src, p, a, x + acc.len()),
    ensures
        lands(src, p, called_open_run(a), x + acc.len() + 14),
        blank(src, x + acc.len() + 14, 2),
        x + acc.len() + 16 < src.len(),
        src[x + acc.len() + 16] == '[',
        lands(src, x + acc.len() + 17, called_open_inner(), x + called_open_text(acc).len()),
{
    lemma_holds_split(src, x, acc, "    :called-by  ["@);
    reveal_strlit("    :called-by  [");
    lemma_called_open(src, p, a, x + acc.len());
}

/// `a` followed by the forms of one caller.
pub open spec fn caller_run(a: Seq<Form>, dep: Seq<char>) -> Seq<Form> {
    a.push(sym(dep + "/handle-request"@))
}

/// The text of one caller holds its forms.
pub proof fn lemma_caller(src: Seq<char>, p: int, a: Seq<Form>, b: int, dep: Seq<char>)
    requires
        lands(src, p, a, b),
        holds(src, b, dep),
        holds(src, b + dep.len(), "/handle-request"@),
        symbol_text(dep + "/handle-request"@),
        !cont_at(src, b + dep.len() + 15),
    ensures
        lands(src, p, caller_run(a, dep), b + dep.len() + 15),
{
    lemma_holds_bounds(src, b, dep);
    piece_caller_1(src, b + dep.len());
    lemma_blank_zero(src, b);
    lemma_holds_join(src, b, dep, "/handle-request"@);
    step_symbol(src, p, a, b, 0, dep + "/handle-request"@);
    let r1 = a.push(sym(dep + "/handle-request"@));
    lemma_blank_zero(src, b + dep.len() + 15);
}

/// `acc` followed by the text of one caller.
pub open spec fn caller_text(acc: Seq<char>, dep: Seq<char>) -> Seq<char> {
    acc + dep + "/handle-request"@
}

/// Where one caller is written behind `acc`, `acc` is written before it.
pub proof fn caller_cut(src: Seq<char>, x: int, acc: Seq<char>, dep: Seq<char>)
    requires
        holds(src, x, caller_text(acc, dep)),
    ensures
        holds(src, x, acc),
        x + (caller_text(acc, dep)).len() == x + acc.len() + dep.len() + 15,
{
    let t1 = acc + dep;
    lemma_holds_split(src, x, t1, "/handle-request"@);
    reveal_strlit("/handle-request");
    lemma_holds_split(src, x, acc, dep);
}

/// The text of one caller, written behind `acc`, holds its forms.
pub proof fn caller_at(src: Seq<char>, p: int, a: Seq<Form>, x: int, acc: Seq<char>, dep: Seq<char>)
    requires
        holds(src, x, caller_text(acc, dep)),
        lands(src, p, a, x + acc.len()),
        symbol_text(dep + "/handle-request"@),
        !cont_at(src, x + caller_text(acc, dep).len()),
    ensures
        lands(src, p, caller_run(a, dep), x + caller_text(acc, dep).len()),
{
    let t1 = acc + dep;
    lemma_holds_split(src, x, t1, "/handle-request"@);
    reveal_strlit("/handle-request");
    lemma_holds_split(src, x, acc, dep);
    lemma_caller(src, p, a, x + acc.len(), dep);
}

/// `a` followed by the forms of the identifier parameter.
pub open spec fn url_param_run(a: Seq<Form>) -> Seq<Form> {
    a
        .push(
            Form::List(
                Seq::<Form>::empty()
                    .push(sym("param"@))
                    .push(sym("id"@))
                    .push(sym("UUID"@))
                    .push(kw("source"@))
                    .push(sym("http-path-param"@))
                    .push(kw("validated-at"@))
                    .push(sym("boundary"@)),
            ),
        )
}

/// The text of the identifier parameter holds its forms.
pub proof fn lemma_url_param(src: Seq<char>, p: int, a: Seq<Form>, b: int)
    requires
        lands(src, p, a, b),
        holds(src, b, "    (param id UUID"@),
        holds(src, b + 18, "\n"@),
        holds(src, b + 19, "      :source http-path-param"@),
        holds(src, b + 48, "\n"@),
        holds(src, b + 49, "      :validated-at boundary)"@),
    ensures
        lands(src, p, url_param_run(a), b + 78),
{
    piece_url_param_0(src, b);
    piece_header_2(src, b + 18);
    piece_url_param_2(src, b + 19);
    piece_header_2(src, b + 48);
    piece_url_param_4(src, b + 49);
    lemma_lands_start(src, b + 5);
    let r1 = Seq::<Form>::empty();
    lemma_blank_zero(src, b + 5);
    word_param();
    step_symbol(src, b + 5, r1, b + 5, 0, "param"@);
    let r2 = r1.push(sym("param"@));
    word_id();
    step_symbol(src, b + 5, r2, b + 10, 1, "id"@);
    let r3 = r2.push(sym("id"@));
    word_uuid();
    step_symbol(src, b + 5, r3, b + 13, 1, "UUID"@);
    let r4 = r3.push(sym("UUID"@));
    lemma_blank_join(src, b + 18, 1, 6);
    word_source();
    step_keyword(src, b + 5, r4, b + 18, 7, "source"@);
    let r5 = r4.push(kw("source"@));
    word_http_path_param();
    step_symbol(src, b + 5, r5, b + 32, 1, "http-path-param"@);
    let r6 = r5.push(sym("http-path-param"@));
    lemma_blank_join(src, b + 48, 1, 6);
    word_validated_at();
    step_keyword(src, b + 5, r6, b + 48, 7, "validated-at"@);
    let r7 = r6.push(kw("validated-at"@));
    word_boundary();
    step_symbol(src, b + 5, r7, b + 68, 1, "boundary"@);
    let r8 = r7.push(sym("boundary"@));
    lemma_blank_zero(src, b + 77);
    lemma_lands_blank(src, b + 5, r8, b + 77, 0);
    step_list(src, p, a, b, 4, r8, b + 77);
    let r9 = a.push(Form::List(r8));
    lemma_blank_zero(src, b + 78);
}

/// `acc` followed by the text of the identifier parameter.
pub open spec fn url_param_text(acc: Seq<char>) -> Seq<char> {
    acc
        + "    (param id UUID"@
        + "\n"@
        + "      :source http-path-param"@
        + "\n"@
        + "      :validated-at boundary)"@
}

/// Where the identifier parameter is written behind `acc`, `acc` is written before it.
pub proof fn url_param_cut(src: Seq<char>, x: int, acc: Seq<char>)
    requires
        holds(src, x, url_param_text(acc)),
    ensures
        holds(src, x, acc),
        x + (url_param_text(acc)).len() == x + acc.len() + 78,
        !cont_at(src, x + acc.len()),
{
    let t1 = acc + "    (param id UUID"@;
    let t2 = t1 + "\n"@;
    let t3 = t2 + "      :source http-path-param"@;
    let t4 = t3 + "\n"@;
    lemma_holds_split(src, x, t4, "      :validated-at boundary)"@);
    reveal_strlit("      :validated-at boundary)");
    lemma_holds_split(src, x, t3, "\n"@);
    reveal_strlit("\n");
    lemma_holds_split(src, x, t2, "      :source http-path-param"@);
    reveal_strlit("      :source http-path-param");
    lemma_holds_split(src, x, t1, "\n"@);
    reveal_strlit("\n");
    lemma_holds_split(src, x, acc, "    (param id UUID"@);
    reveal_strlit("    (param id UUID");
    lemma_first_char(src, x + acc.len(), "    (param id UUID"@);
}

/// The text of the identifier parameter, written behind `acc`, holds its forms.
pub proof fn url_param_at(src: Seq<char>, p: int, a: Seq<Form>, x: int, acc: Seq<char>)
    requires
        holds(src, x, url_param_text(acc)),
        lands(src, p, a, x + acc.len()),
    ensures
        lands(src, p, url_param_run(a), x + url_param_text(acc).len()),
{
    let t1 = acc + "    (param id UUID"@;
    let t2 = t1 + "\n"@;
    let t3 = t2 + "      :source http-path-param"@;
    let t4 = t3 + "\n"@;
    lemma_holds_split(src, x, t4, "      :validated-at boundary)"@);
    reveal_strlit("      :validated-at boundary)");
    lemma_holds_split(src, x, t3, "\n"@);
    reveal_strlit("\n");
    lemma_holds_split(src, x, t2, "      :source http-path-param"@);
    reveal_strlit("      :source http-path-param");
    lemma_holds_split(src, x, t1, "\n"@);
    reveal_strlit("\n");
    lemma_holds_split(src, x, acc, "    (param id UUID"@);
    reveal_strlit("    (param id UUID");
    lemma_url_param(src, p, a, x + acc.len());
}

/// `a` followed by the forms of the head of the body parameter.
pub open spec fn body_open_run(a: Seq<Form>) -> Seq<Form> {
    a
}

/// The forms inside the container that the head of the body parameter opens.
pub open spec fn body_open_inner() -> Seq<Form> {
    Seq::<Form>::empty().push(sym("param"@)).push(sym("input"@))
}

/// The forms inside the container that the head of the body parameter opens at depth 2.
pub open spec fn body_open_inner2() -> Seq<Form> {
    Seq::<Form>::empty()
}

/// The text of the head of the body parameter holds its forms.
pub proof fn lemma_body_open(src: Seq<char>, p: int, a: Seq<Form>, b: int)
    requires
        lands(src, p, a, b),
        holds(src, b, "    (param input "@),
        holds(src, b + 17, "{"@),
    ensures
        lands(src, p, body_open_run(a), b),
        blank(src, b, 4),
        b + 4 < src.len(),
        src[b + 4] == '(',
        lands(src, b + 5, body_open_inner(), b + 16),
        blank(src, b + 16, 1),
        b + 17 < src.len(),
        src[b + 17] == '{',
        lands(src, b + 18, body_open_inner2(), b + 18),
{
    piece_body_open_0(src, b);
    piece_body_open_1(src, b + 17);
    lemma_lands_start(src, b + 5);
    let r1 = Seq::<Form>::empty();
    lemma_blank_zero(src, b + 5);
    word_param();
    step_symbol(src, b + 5, r1, b + 5, 0, "param"@);
    let r2 = r1.push(sym("param"@));
    word_input();
    step_symbol(src, b + 5, r2, b + 10, 1, "input"@);
    let r3 = r2.push(sym("input"@));
    lemma_lands_start(src, b + 18);
    let r4 = Seq::<Form>::empty();
    lemma_blank_zero(src, b + 18);
}

/// `acc` followed by the text of the head of the body parameter.
pub open spec fn body_open_text(acc: Seq<char>) -> Seq<char> {
    acc + "    (param input "@ + "{"@
}

/// Where the head of the body parameter is written behind `acc`, `acc` is written before it.
pub proof fn body_open_cut(src: Seq<char>, x: int, acc: Seq<char>)
    requires
        holds(src, x, body_open_text(acc)),
    ensures
        holds(src, x, acc),
        x + (body_open_text(acc)).len() == x + acc.len() + 18,
        !cont_at(src, x + acc.len()),
{
    let t1 = acc + "    (param input "@;
    lemma_holds_split(src, x, t1, "{"@);
    reveal_strlit("{");
    lemma_holds_split(src, x, acc, "    (param input "@);
    reveal_strlit("    (param input ");
    lemma_first_char(src, x + acc.len(), "    (param input "@);
}

/// The text of the head of the body parameter, written behind `acc`, holds its forms.
pub proof fn body_open_at(src: Seq<char>, p: int, a: Seq<Form>, x: int, acc: Seq<char>)
    requires
        holds(src, x, body_open_text(acc)),
        lands(src, p, a, x + acc.len()),
    ensures
        lands(src, p, body_open_run(a), x + acc.len()),
        blank(src, x + acc.len(), 4),
        x + acc.len() + 4 < src.len(),
        src[x + acc.len() + 4] == '(',
        lands(src, x + acc.len() + 5, body_open_inner(), x + acc.len() + 16),
        blank(src, x + acc.len() + 16, 1),
        x + acc.len() + 17 < src.len(),
        src[x + acc.len() + 17] == '{',
        lands(src, x + acc.len() + 18, body_open_inner2(), x + body_open_text(acc).len()),
{
    let t1 = acc + "    (param input "@;
    lemma_holds_split(src, x, t1, "{"@);
    reveal_strlit("{");
    lemma_holds_split(src, x, acc, "    (param input "@);
    reveal_strlit("    (param input ");
    lemma_body_open(src, p, a, x + acc.len());
}

/// `a` followed by the forms of one entry of the input map.
pub open spec fn input_entry_run(a: Seq<Form>, name: Seq<char>, ty: Seq<char>) -> Seq<Form> {
    a.push(kw(name)).push(sym(ty))
}

/// The text of one entry of the input map holds its forms.
pub proof fn lemma_input_entry(
    src: Seq<char>,
    p: int,
    a: Seq<Form>,
    b: int,
    name: Seq<char>,
    ty: Seq<char>,
)
    requires
        lands(src, p, a, b),
        holds(src, b, ":"@),
        holds(src, b + 1, name),
        holds(src, b + name.len() + 1, " "@),
        holds(src, b + name.len() + 2, ty),
        keyword_text(name),
        symbol_text(ty),
        !cont_at(src, b + name.len() + ty.len() + 2),
    ensures
        lands(src, p, input_entry_run(a, name, ty), b + name.len() + ty.len() + 2),
{
    piece_input_entry_0(src, b);
    lemma_holds_bounds(src, b + 1, name);
    piece_field_open_2(src, b + name.len() + 1);
    lemma_holds_bounds(src, b + name.len() + 2, ty);
    lemma_blank_zero(src, b);
    step_keyword(src, p, a, b, 0, name);
    let r1 = a.push(kw(name));
    step_symbol(src, p, r1, b + name.len() + 1, 1, ty);
    let r2 = r1.push(sym(ty));
    lemma_blank_zero(src, b + name.len() + ty.len() + 2);
}

/// `acc` followed by the text of one entry of the input map.
pub open spec fn input_entry_text(acc: Seq<char>, name: Seq<char>, ty: Seq<char>) -> Seq<char> {
    acc + ":"@ + name + " "@ + ty
}

/// Where one entry of the input map is written behind `acc`, `acc` is written before it.
pub proof fn input_entry_cut(src: Seq<char>, x: int, acc: Seq<char>, name: Seq<char>, ty: Seq<char>)
    requires
        holds(src, x, input_entry_text(acc, name, ty)),
    ensures
        holds(src, x, acc),
        x + (input_entry_text(acc, name, ty)).len() == x + acc.len() + name.len() + ty.len() + 2,
        !cont_at(src, x + acc.len()),
{
    let t1 = acc + ":"@;
    let t2 = t1 + name;
    let t3 = t2 + " "@;
    lemma_holds_split(src, x, t3, ty);
    lemma_holds_split(src, x, t2, " "@);
    reveal_strlit(" ");
    lemma_holds_split(src, x, t1, name);
    lemma_holds_split(src, x, acc, ":"@);
    reveal_strlit(":");
    lemma_first_char(src, x + acc.len(), ":"@);
}

/// The text of one entry of the input map, written behind `acc`, holds its forms.
pub proof fn input_entry_at(
    src: Seq<char>,
    p: int,
    a: Seq<Form>,
    x: int,
    acc: Seq<char>,
    name: Seq<char>,
    ty: Seq<char>,
)
    requires
        holds(src, x, input_entry_text(acc, name, ty)),
        lands(src, p, a, x + acc.len()),
        keyword_text(name),
        symbol_text(ty),
        !cont_at(src, x + input_entry_text(acc, name, ty).len()),
    ensures
        lands(src, p, input_entry_run(a, name, ty), x + input_entry_text(acc, name, ty).len()),
{
    let t1 = acc + ":"@;
    let t2 = t1 + name;
    let t3 = t2 + " "@;
    lemma_holds_split(src, x, t3, ty);
    lemma_holds_split(src, x, t2, " "@);
    reveal_strlit(" ");
    lemma_holds_split(src, x, t1, name);
    lemma_holds_split(src, x, acc, ":"@);
    reveal_strlit(":");
    lemma_input_entry(src, p, a, x + acc.len(), name, ty);
}

/// `ao` followed by the container that the rest of the body parameter closes, which holds `a` and
/// the forms of the rest of the body parameter.
pub open spec fn body_rest_run(ao: Seq<Form>, a: Seq<Form>) -> Seq<Form> {
    ao
        .push(
            Form::List(
                a
                    .push(kw("source"@))
                    .push(sym("http-body"@))
                    .push(kw("content-type"@))
                    .push(kw("json"@))
                    .push(kw("validated-at"@))
                    .push(sym("boundary"@)),
            ),
        )
}

/// The text of the rest of the body parameter holds its forms.
pub proof fn lemma_body_rest(
    src: Seq<char>,
    p: int,
    a: Seq<Form>,
    b: int,
    po: int,
    ao: Seq<Form>,
    qo: int,
    no: int,
)
    requires
        lands(src, p, a, b),
        holds(src, b, "\n"@),
        holds(src, b + 1, "      :source http-body"@),
        holds(src, b + 24, "\n"@),
        holds(src, b + 25, "      :content-type :json"@),
        holds(src, b + 50, "\n"@),
        holds(src, b + 51, "      :validated-at boundary)"@),
        lands(src, po, ao, qo),
        blank(src, qo, no),
        qo + no < src.len(),
        src[qo + no] == '(',
        p == qo + no + 1,
    ensures
        lands(src, po, body_rest_run(ao, a), b + 80),
{
    piece_header_8(src, b);
    piece_body_rest_1(src, b + 1);
    piece_header_2(src, b + 24);
    piece_body_rest_3(src, b + 25);
    piece_header_2(src, b + 50);
    piece_url_param_4(src, b + 51);
    lemma_blank_join(src, b, 1, 6);
    word_source();
    step_keyword(src, p, a, b, 7, "source"@);
    let r1 = a.push(kw("source"@));
    word_http_body();
    step_symbol(src, p, r1, b + 14, 1, "http-body"@);
    let r2 = r1.push(sym("http-body"@));
    lemma_blank_join(src, b + 24, 1, 6);
    word_content_type();
    step_keyword(src, p, r2, b + 24, 7, "content-type"@);
    let r3 = r2.push(kw("content-type"@));
    word_json();
    step_keyword(src, p, r3, b + 44, 1, "json"@);
    let r4 = r3.push(kw("json"@));
    lemma_blank_join(src, b + 50, 1, 6);
    word_validated_at();
    step_keyword(src, p, r4, b + 50, 7, "validated-at"@);
    let r5 = r4.push(kw("validated-at"@));
    word_boundary();
    step_symbol(src, p, r5, b + 70, 1, "boundary"@);
    let r6 = r5.push(sym("boundary"@));
    lemma_blank_zero(src, b + 79);
    lemma_lands_blank(src, p, r6, b + 79, 0);
    step_list(src, po, ao, qo, no, r6, b + 79);
    let r7 = ao.push(Form::List(r6));
    lemma_blank_zero(src, b + 80);
}

/// `acc` followed by the text of the rest of the body parameter.
pub open spec fn body_rest_text(acc: Seq<char>) -> Seq<char> {
    acc
        + "\n"@
        + "      :source http-body"@
        + "\n"@
        + "      :content-type :json"@
        + "\n"@
        + "      :validated-at boundary)"@
}

/// Where the rest of the body parameter is written behind `acc`, `acc` is written before it.
pub proof fn body_rest_cut(src: Seq<char>, x: int, acc: Seq<char>)
    requires
        holds(src, x, body_rest_text(acc)),
    ensures
        holds(src, x, acc),
        x + (body_rest_text(acc)).len() == x + acc.len() + 80,
        !cont_at(src, x + acc.len()),
{
    let t1 = acc + "\n"@;
    let t2 = t1 + "      :source http-body"@;
    let t3 = t2 + "\n"@;
    let t4 = t3 + "      :content-type :json"@;
    let t5 = t4 + "\n"@;
    lemma_holds_split(src, x, t5, "      :validated-at boundary)"@);
    reveal_strlit("      :validated-at boundary)");
    lemma_holds_split(src, x, t4, "\n"@);
    reveal_strlit("\n");
    lemma_holds_split(src, x, t3, "      :content-type :json"@);
    reveal_strlit("      :content-type :json");
    lemma_holds_split(src, x, t2, "\n"@);
    reveal_strlit("\n");
    lemma_holds_split(src, x, t1, "      :source http-body"@);
    reveal_strlit("      :source http-body");
    lemma_holds_split(src, x, acc, "\n"@);
    reveal_strlit("\n");
    lemma_first_char(src, x + acc.len(), "\n"@);
}

/// The text of the rest of the body parameter, written behind `acc`, holds its forms.
pub proof fn body_rest_at(
    src: Seq<char>,
    p: int,
    a: Seq<Form>,
    x: int,
    acc: Seq<char>,
    po: int,
    ao: Seq<Form>,
    qo: int,
    no: int,
)
    requires
        holds(src, x, body_rest_text(acc)),
        lands(src, p, a, x + acc.len()),
        lands(src, po, ao, qo),
        blank(src, qo, no),
        qo + no < src.len(),
        src[qo + no] == '(',
        p == qo + no + 1,
    ensures
        lands(src, po, body_rest_run(ao, a), x + body_rest_text(acc).len()),
{
    let t1 = acc + "\n"@;
    let t2 = t1 + "      :source http-body"@;
    let t3 = t2 + "\n"@;
    let t4 = t3 + "      :content-type :json"@;
    let t5 = t4 + "\n"@;
    lemma_holds_split(src, x, t5, "      :validated-at boundary)"@);
    reveal_strlit("      :validated-at boundary)");
    lemma_holds_split(src, x, t4, "\n"@);
    reveal_strlit("\n");
    lemma_holds_split(src, x, t3, "      :content-type :json"@);
    reveal_strlit("      :content-type :json");
    lemma_holds_split(src, x, t2, "\n"@);
    reveal_strlit("\n");
    lemma_holds_split(src, x, t1, "      :source http-body"@);
    reveal_strlit("      :source http-body");
    lemma_holds_split(src, x, acc, "\n"@);
    reveal_strlit("\n");
    lemma_body_rest(src, p, a, x + acc.len(), po, ao, qo, no);
}

/// `a` followed by the forms of the head of the returns.
pub open spec fn returns_open_run(a: Seq<Form>) -> Seq<Form> {
    a
}

/// The forms inside the container that the head of the returns opens.
pub open spec fn returns_open_inner() -> Seq<Form> {
    Seq::<Form>::empty().push(sym("returns"@))
}

/// The forms inside the container that the head of the returns opens at depth 2.
pub open spec fn returns_open_inner2() -> Seq<Form> {
    Seq::<Form>::empty().push(sym("union"@))
}

/// The text of the head of the returns holds its forms.
pub proof fn lemma_returns_open(src: Seq<char>, p: int, a: Seq<Form>, b: int)
    requires
        lands(src, p, a, b),
        holds(src, b, "    (returns (union"@),
        !cont_at(src, b + 19),
    ensures
        lands(src, p, returns_open_run(a), b),
        blank(src, b, 4),
        b + 4 < src.len(),
        src[b + 4] == '(',
        lands(src, b + 5, returns_open_inner(), b + 12),
        blank(src, b + 12, 1),
        b + 13 < src.len(),
        src[b + 13] == '(',
        lands(src, b + 14, returns_open_inner2(), b + 19),
{
    piece_returns_open_0(src, b);
    lemma_lands_start(src, b + 5);
    let r1 = Seq::<Form>::empty();
    lemma_blank_zero(src, b + 5);
    word_returns();
    step_symbol(src, b + 5, r1, b + 5, 0, "returns"@);
    let r2 = r1.push(sym("returns"@));
    lemma_lands_start(src, b + 14);
    let r3 = Seq::<Form>::empty();
    lemma_blank_zero(src, b + 14);
    word_union();
    step_symbol(src, b + 14, r3, b + 14, 0, "union"@);
    let r4 = r3.push(sym("union"@));
    lemma_blank_zero(src, b + 19);
}

/// `acc` followed by the text of the head of the returns.
pub open spec fn returns_open_text(acc: Seq<char>) -> Seq<char> {
    acc + "    (returns (union"@
}

/// Where the head of the returns is written behind `acc`, `acc` is written before it.
pub proof fn returns_open_cut(src: Seq<char>, x: int, acc: Seq<char>)
    requires
        holds(src, x, returns_open_text(acc)),
    ensures
        holds(src, x, acc),
        x + (returns_open_text(acc)).len() == x + acc.len() + 19,
        !cont_at(src, x + acc.len()),
{
    lemma_holds_split(src, x, acc, "    (returns (union"@);
    reveal_strlit("    (returns (union");
    lemma_first_char(src, x + acc.len(), "    (returns (union"@);
}

/// The text of the head of the returns, written behind `acc`, holds its forms.
pub proof fn returns_open_at(src: Seq<char>, p: int, a: Seq<Form>, x: int, acc: Seq<char>)
    requires
        holds(src, x, returns_open_text(acc)),
        lands(src, p, a, x + acc.len()),
        !cont_at(src, x + returns_open_text(acc).len()),
    ensures
        lands(src, p, returns_open_run(a), x + acc.len()),
        blank(src, x + acc.len(), 4),
        x + acc.len() + 4 < src.len(),
        src[x + acc.len() + 4] == '(',
        lands(src, x + acc.len() + 5, returns_open_inner(), x + acc.len() + 12),
        blank(src, x + acc.len() + 12, 1),
        x + acc.len() + 13 < src.len(),
        src[x + acc.len() + 13] == '(',
        lands(src, x + acc.len() + 14, returns_open_inner2(), x + returns_open_text(acc).len()),
{
    lemma_holds_split(src, x, acc, "    (returns (union"@);
    reveal_strlit("    (returns (union");
    lemma_returns_open(src, p, a, x + acc.len());
}

/// `a` followed by the forms of the head of a success.
pub open spec fn ok_open_run(a: Seq<Form>, primary: Seq<char>) -> Seq<Form> {
    a
}

/// The forms inside the container that the head of a success opens.
pub open spec fn ok_open_inner(primary: Seq<char>) -> Seq<Form> {
    Seq::<Form>::empty().push(sym("ok"@)).push(sym(primary))
}

/// The text of the head of a success holds its forms.
pub proof fn lemma_ok_open(src: Seq<char>, p: int, a: Seq<Form>, b: int, primary: Seq<char>)
    requires
        lands(src, p, a, b),
        holds(src, b, "\n"@),
        holds(src, b + 1, "      (ok   "@),
        holds(src, b + 13, primary),
        symbol_text(primary),
        !cont_at(src, b + primary.len() + 13),
    ensures
        lands(src, p, ok_open_run(a, primary), b),
        blank(src, b, 7),
        b + 7 < src.len(),
        src[b + 7] == '(',
        lands(src, b + 8, ok_open_inner(primary), b + primary.len() + 13),
{
    piece_header_8(src, b);
    piece_ok_open_1(src, b + 1);
    lemma_holds_bounds(src, b + 13, primary);
    lemma_blank_join(src, b, 1, 6);
    lemma_lands_start(src, b + 8);
    let r1 = Seq::<Form>::empty();
    lemma_blank_zero(src, b + 8);
    word_ok();
    step_symbol(src, b + 8, r1, b + 8, 0, "ok"@);
    let r2 = r1.push(sym("ok"@));
    step_symbol(src, b + 8, r2, b + 10, 3, primary);
    let r3 = r2.push(sym(primary));
    lemma_blank_zero(src, b + primary.len() + 13);
}

/// `acc` followed by the text of the head of a success.
pub open spec fn ok_open_text(acc: Seq<char>, primary: Seq<char>) -> Seq<char> {
    acc + "\n"@ + "      (ok   "@ + primary
}

/// Where the head of a success is written behind `acc`, `acc` is written before it.
pub proof fn ok_open_cut(src: Seq<char>, x: int, acc: Seq<char>, primary: Seq<char>)
    requires
        holds(src, x, ok_open_text(acc, primary)),
    ensures
        holds(src, x, acc),
        x + (ok_open_text(acc, primary)).len() == x + acc.len() + primary.len() + 13,
        !cont_at(src, x + acc.len()),
{
    let t1 = acc + "\n"@;
    let t2 = t1 + "      (ok   "@;
    lemma_holds_split(src, x, t2, primary);
    lemma_holds_split(src, x, t1, "      (ok   "@);
    reveal_strlit("      (ok   ");
    lemma_holds_split(src, x, acc, "\n"@);
    reveal_strlit("\n");
    lemma_first_char(src, x + acc.len(), "\n"@);
}

/// The text of the head of a success, written behind `acc`, holds its forms.
pub proof fn ok_open_at(
    src: Seq<char>,
    p: int,
    a: Seq<Form>,
    x: int,
    acc: Seq<char>,
    primary: Seq<char>,
)
    requires
        holds(src, x, ok_open_text(acc, primary)),
        lands(src, p, a, x + acc.len()),
        symbol_text(primary),
        !cont_at(src, x + ok_open_text(acc, primary).len()),
    ensures
        lands(src, p, ok_open_run(a, primary), x + acc.len()),
        blank(src, x + acc.len(), 7),
        x + acc.len() + 7 < src.len(),
        src[x + acc.len() + 7] == '(',
        lands(src, x + acc.len() + 8, ok_open_inner(primary), x + ok_open_text(acc, primary).len()),
{
    let t1 = acc + "\n"@;
    let t2 = t1 + "      (ok   "@;
    lemma_holds_split(src, x, t2, primary);
    lemma_holds_split(src, x, t1, "      (ok   "@);
    reveal_strlit("      (ok   ");
    lemma_holds_split(src, x, acc, "\n"@);
    reveal_strlit("\n");
    lemma_ok_open(src, p, a, x + acc.len(), primary);
}

/// `a` followed by the forms of the status of a variant.
pub open spec fn http_run(a: Seq<Form>, n: nat) -> Seq<Form> {
    a.push(kw("http"@)).push(num(n))
}

/// The text of the status of a variant holds its forms.
pub proof fn lemma_http(src: Seq<char>, p: int, a: Seq<Form>, b: int, n: nat)
    requires
        lands(src, p, a, b),
        holds(src, b, " :http "@),
        holds(src, b + 7, dec(n)),
        n <= i64::MAX,
        !cont_at(src, b + dec(n).len() + 7),
    ensures
        lands(src, p, http_run(a, n), b + dec(n).len() + 7),
{
    piece_http_0(src, b);
    lemma_holds_bounds(src, b + 7, dec(n));
    word_http();
    step_keyword(src, p, a, b, 1, "http"@);
    let r1 = a.push(kw("http"@));
    step_int(src, p, r1, b + 6, 1, n);
    let r2 = r1.push(num(n));
    lemma_blank_zero(src, b + dec(n).len() + 7);
}

/// `acc` followed by the text of the status of a variant.
pub open spec fn http_text(acc: Seq<char>, n: nat) -> Seq<char> {
    acc + " :http "@ + dec(n)
}

/// Where the status of a variant is written behind `acc`, `acc` is written before it.
pub proof fn http_cut(src: Seq<char>, x: int, acc: Seq<char>, n: nat)
    requires
        holds(src, x, http_text(acc, n)),
    ensures
        holds(src, x, acc),
        x + (http_text(acc, n)).len() == x + acc.len() + dec(n).len() + 7,
        !cont_at(src, x + acc.len()),
{
    let t1 = acc + " :http "@;
    lemma_holds_split(src, x, t1, dec(n));
    lemma_holds_split(src, x, acc, " :http "@);
    reveal_strlit(" :http ");
    lemma_first_char(src, x + acc.len(), " :http "@);
}

/// The text of the status of a variant, written behind `acc`, holds its forms.
pub proof fn http_at(src: Seq<char>, p: int, a: Seq<Form>, x: int, acc: Seq<char>, n: nat)
    requires
        holds(src, x, http_text(acc, n)),
        lands(src, p, a, x + acc.len()),
        n <= i64::MAX,
        !cont_at(src, x + http_text(acc, n).len()),
    ensures
        lands(src, p, http_run(a, n), x + http_text(acc, n).len()),
{
    let t1 = acc + " :http "@;
    lemma_holds_split(src, x, t1, dec(n));
    lemma_holds_split(src, x, acc, " :http "@);
    reveal_strlit(" :http ");
    lemma_http(src, p, a, x + acc.len(), n);
}

/// `ao` followed by the container that the serialization of a success closes, which holds `a` and
/// the forms of the serialization of a success.
pub open spec fn serialize_run(ao: Seq<Form>, a: Seq<Form>) -> Seq<Form> {
    ao.push(Form::List(a.push(kw("serialize"@)).push(kw("json"@))))
}

/// The text of the serialization of a success holds its forms.
pub proof fn lemma_serialize(
    src: Seq<char>,
    p: int,
    a: Seq<Form>,
    b: int,
    po: int,
    ao: Seq<Form>,
    qo: int,
    no: int,
)
    requires
        lands(src, p, a, b),
        holds(src, b, "  :serialize :json)"@),
        lands(src, po, ao, qo),
        blank(src, qo, no),
        qo + no < src.len(),
        src[qo + no] == '(',
        p == qo + no + 1,
    ensures
        lands(src, po, serialize_run(ao, a), b + 19),
{
    piece_serialize_0(src, b);
    word_serialize();
    step_keyword(src, p, a, b, 2, "serialize"@);
    let r1 = a.push(kw("serialize"@));
    word_json();
    step_keyword(src, p, r1, b + 12, 1, "json"@);
    let r2 = r1.push(kw("json"@));
    lemma_blank_zero(src, b + 18);
    lemma_lands_blank(src, p, r2, b + 18, 0);
    step_list(src, po, ao, qo, no, r2, b + 18);
    let r3 = ao.push(Form::List(r2));
    lemma_blank_zero(src, b + 19);
}

/// `acc` followed by the text of the serialization of a success.
pub open spec fn serialize_text(acc: Seq<char>) -> Seq<char> {
    acc + "  :serialize :json)"@
}

/// Where the serialization of a success is written behind `acc`, `acc` is written before it.
pub proof fn serialize_cut(src: Seq<char>, x: int, acc: Seq<char>)
    requires
        holds(src, x, serialize_text(acc)),
    ensures
        holds(src, x, acc),
        x + (serialize_text(acc)).len() == x + acc.len() + 19,
        !cont_at(src, x + acc.len()),
{
    lemma_holds_split(src, x, acc, "  :serialize :json)"@);
    reveal_strlit("  :serialize :json)");
    lemma_first_char(src, x + acc.len(), "  :serialize :json)"@);
}

/// The text of the serialization of a success, written behind `acc`, holds its forms.
pub proof fn serialize_at(
    src: Seq<char>,
    p: int,
    a: Seq<Form>,
    x: int,
    acc: Seq<char>,
    po: int,
    ao: Seq<Form>,
    qo: int,
    no: int,
)
    requires
        holds(src, x, serialize_text(acc)),
        lands(src, p, a, x + acc.len()),
        lands(src, po, ao, qo),
        blank(src, qo, no),
        qo + no < src.len(),
        src[qo + no] == '(',
        p == qo + no + 1,
    ensures
        lands(src, po, serialize_run(ao, a), x + serialize_text(acc).len()),
{
    lemma_holds_split(src, x, acc, "  :serialize :json)"@);
    reveal_strlit("  :serialize :json)");
    lemma_serialize(src, p, a, x + acc.len(), po, ao, qo, no);
}

/// `a` followed by the forms of the head of a failure.
pub open spec fn err_open_run(a: Seq<Form>, tag: Seq<char>) -> Seq<Form> {
    a
}

/// The forms inside the container that the head of a failure opens.
pub open spec fn err_open_inner(tag: Seq<char>) -> Seq<Form> {
    Seq::<Form>::empty().push(sym("err"@)).push(kw(tag))
}

/// The text of the head of a failure holds its forms.
pub proof fn lemma_err_open(src: Seq<char>, p: int, a: Seq<Form>, b: int, tag: Seq<char>)
    requires
        lands(src, p, a, b),
        holds(src, b, "\n"@),
        holds(src, b + 1, "      (err  :"@),
        holds(src, b + 14, tag),
        holds(src, b + tag.len() + 14, " "@),
        keyword_text(tag),
    ensures
        lands(src, p, err_open_run(a, tag), b),
        blank(src, b, 7),
        b + 7 < src.len(),
        src[b + 7] == '(',
        lands(src, b + 8, err_open_inner(tag), b + tag.len() + 15),
{
    piece_header_8(src, b);
    piece_err_open_1(src, b + 1);
    lemma_holds_bounds(src, b + 14, tag);
    piece_field_open_2(src, b + tag.len() + 14);
    lemma_blank_join(src, b, 1, 6);
    lemma_lands_start(src, b + 8);
    let r1 = Seq::<Form>::empty();
    lemma_blank_zero(src, b + 8);
    word_err();
    step_symbol(src, b + 8, r1, b + 8, 0, "err"@);
    let r2 = r1.push(sym("err"@));
    step_keyword(src, b + 8, r2, b + 11, 2, tag);
    let r3 = r2.push(kw(tag));
    lemma_lands_blank(src, b + 8, r3, b + tag.len() + 14, 1);
}

/// `acc` followed by the text of the head of a failure.
pub open spec fn err_open_text(acc: Seq<char>, tag: Seq<char>) -> Seq<char> {
    acc + "\n"@ + "      (err  :"@ + tag + " "@
}

/// Where the head of a failure is written behind `acc`, `acc` is written before it.
pub proof fn err_open_cut(src: Seq<char>, x: int, acc: Seq<char>, tag: Seq<char>)
    requires
        holds(src, x, err_open_text(acc, tag)),
    ensures
        holds(src, x, acc),
        x + (err_open_text(acc, tag)).len() == x + acc.len() + tag.len() + 15,
        !cont_at(src, x + acc.len()),
{
    let t1 = acc + "\n"@;
    let t2 = t1 + "      (err  :"@;
    let t3 = t2 + tag;
    lemma_holds_split(src, x, t3, " "@);
    reveal_strlit(" ");
    lemma_holds_split(src, x, t2, tag);
    lemma_holds_split(src, x, t1, "      (err  :"@);
    reveal_strlit("      (err  :");
    lemma_holds_split(src, x, acc, "\n"@);
    reveal_strlit("\n");
    lemma_first_char(src, x + acc.len(), "\n"@);
}

/// The text of the head of a failure, written behind `acc`, holds its forms.
pub proof fn err_open_at(
    src: Seq<char>,
    p: int,
    a: Seq<Form>,
    x: int,
    acc: Seq<char>,
    tag: Seq<char>,
)
    requires
        holds(src, x, err_open_text(acc, tag)),
        lands(src, p, a, x + acc.len()),
        keyword_text(tag),
    ensures
        lands(src, p, err_open_run(a, tag), x + acc.len()),
        blank(src, x + acc.len(), 7),
        x + acc.len() + 7 < src.len(),
        src[x + acc.len() + 7] == '(',
        lands(src, x + acc.len() + 8, err_open_inner(tag), x + err_open_text(acc, tag).len()),
{
    let t1 = acc + "\n"@;
    let t2 = t1 + "      (err  :"@;
    let t3 = t2 + tag;
    lemma_holds_split(src, x, t3, " "@);
    reveal_strlit(" ");
    lemma_holds_split(src, x, t2, tag);
    lemma_holds_split(src, x, t1, "      (err  :"@);
    reveal_strlit("      (err  :");
    lemma_holds_split(src, x, acc, "\n"@);
    reveal_strlit("\n");
    lemma_err_open(src, p, a, x + acc.len(), tag);
}

/// `a` followed by the forms of the payload that names an identifier.
pub open spec fn payload_id_run(a: Seq<Form>) -> Seq<Form> {
    a.push(plain_map(Seq::<Form>::empty().push(kw("id"@)).push(sym("id"@))))
}

/// The text of the payload that names an identifier holds its forms.
pub proof fn lemma_payload_id(src: Seq<char>, p: int, a: Seq<Form>, b: int)
    requires
        lands(src, p, a, b),
        holds(src, b, "{:id id}"@),
    ensures
        lands(src, p, payload_id_run(a), b + 8),
{
    piece_payload_id_0(src, b);
    lemma_blank_zero(src, b);
    lemma_lands_start(src, b + 1);
    let r1 = Seq::<Form>::empty();
    lemma_blank_zero(src, b + 1);
    word_id();
    step_keyword(src, b + 1, r1, b + 1, 0, "id"@);
    let r2 = r1.push(kw("id"@));
    word_id();
    step_symbol(src, b + 1, r2, b + 4, 1, "id"@);
    let r3 = r2.push(sym("id"@));
    lemma_blank_zero(src, b + 7);
    lemma_lands_blank(src, b + 1, r3, b + 7, 0);
    step_map(src, p, a, b, 0, r3, b + 7);
    let r4 = a.push(plain_map(r3));
    lemma_blank_zero(src, b + 8);
}

/// `acc` followed by the text of the payload that names an identifier.
pub open spec fn payload_id_text(acc: Seq<char>) -> Seq<char> {
    acc + "{:id id}"@
}

/// Where the payload that names an identifier is written behind `acc`, `acc` is written before it.
pub proof fn payload_id_cut(src: Seq<char>, x: int, acc: Seq<char>)
    requires
        holds(src, x, payload_id_text(acc)),
    ensures
        holds(src, x, acc),
        x + (payload_id_text(acc)).len() == x + acc.len() + 8,
        !cont_at(src, x + acc.len()),
{
    lemma_holds_split(src, x, acc, "{:id id}"@);
    reveal_strlit("{:id id}");
    lemma_first_char(src, x + acc.len(), "{:id id}"@);
}

/// The text of the payload that names an identifier, written behind `acc`, holds its forms.
pub proof fn payload_id_at(src: Seq<char>, p: int, a: Seq<Form>, x: int, acc: Seq<char>)
    requires
        holds(src, x, payload_id_text(acc)),
        lands(src, p, a, x + acc.len()),
    ensures
        lands(src, p, payload_id_run(a), x + payload_id_text(acc).len()),
{
    lemma_holds_split(src, x, acc, "{:id id}"@);
    reveal_strlit("{:id id}");
    lemma_payload_id(src, p, a, x + acc.len());
}

/// `a` followed by the forms of the payload that names a field of the input.
pub open spec fn payload_field_run(a: Seq<Form>, field: Seq<char>) -> Seq<Form> {
    a
        .push(
            plain_map(
                Seq::<Form>::empty()
                    .push(kw(field))
                    .push(
                        Form::List(
                            Seq::<Form>::empty()
                                .push(sym("."@))
                                .push(sym("input"@))
                                .push(sym(field)),
                        ),
                    ),
            ),
        )
}

/// The text of the payload that names a field of the input holds its forms.
pub proof fn lemma_payload_field(src: Seq<char>, p: int, a: Seq<Form>, b: int, field: Seq<char>)
    requires
        lands(src, p, a, b),
        holds(src, b, "{:"@),
        holds(src, b + 2, field),
        holds(src, b + field.len() + 2, " (. input "@),
        holds(src, b + field.len() + 12, field),
        holds(src, b + field.len() + field.len() + 12, ")}"@),
        keyword_text(field),
        symbol_text(field),
    ensures
        lands(src, p, payload_field_run(a, field), b + field.len() + field.len() + 14),
{
    piece_payload_field_0(src, b);
    lemma_holds_bounds(src, b + 2, field);
    piece_payload_field_2(src, b + field.len() + 2);
    lemma_holds_bounds(src, b + field.len() + 12, field);
    piece_payload_field_4(src, b + field.len() + field.len() + 12);
    lemma_blank_zero(src, b);
    lemma_lands_start(src, b + 1);
    let r1 = Seq::<Form>::empty();
    lemma_blank_zero(src, b + 1);
    step_keyword(src, b + 1, r1, b + 1, 0, field);
    let r2 = r1.push(kw(field));
    lemma_lands_start(src, b + field.len() + 4);
    let r3 = Seq::<Form>::empty();
    lemma_blank_zero(src, b + field.len() + 4);
    word_w2e();
    step_symbol(src, b + field.len() + 4, r3, b + field.len() + 4, 0, "."@);
    let r4 = r3.push(sym("."@));
    word_input();
    step_symbol(src, b + field.len() + 4, r4, b + field.len() + 5, 1, "input"@);
    let r5 = r4.push(sym("input"@));
    step_symbol(src, b + field.len() + 4, r5, b + field.len() + 11, 1, field);
    let r6 = r5.push(sym(field));
    lemma_blank_zero(src, b + field.len() + field.len() + 12);
    lemma_lands_blank(src, b + field.len() + 4, r6, b + field.len() + field.len() + 12, 0);
    step_list(src, b + 1, r2, b + field.len() + 2, 1, r6, b + field.len() + field.len() + 12);
    let r7 = r2.push(Form::List(r6));
    lemma_blank_zero(src, b + field.len() + field.len() + 13);
    lemma_lands_blank(src, b + 1, r7, b + field.len() + field.len() + 13, 0);
    step_map(src, p, a, b, 0, r7, b + field.len() + field.len() + 13);
    let r8 = a.push(plain_map(r7));
    lemma_blank_zero(src, b + field.len() + field.len() + 14);
}

/// `acc` followed by the text of the payload that names a field of the input.
pub open spec fn payload_field_text(acc: Seq<char>, field: Seq<char>) -> Seq<char> {
    acc + "{:"@ + field + " (. input "@ + field + ")}"@
}

/// Where the payload that names a field of the input is written behind `acc`, `acc` is written
/// before it.
pub proof fn payload_field_cut(src: Seq<char>, x: int, acc: Seq<char>, field: Seq<char>)
    requires
        holds(src, x, payload_field_text(acc, field)),
    ensures
        holds(src, x, acc),
        x + (payload_field_text(acc, field)).len() == x + acc.len() + field.len() + field.len() + 14,
        !cont_at(src, x + acc.len()),
{
    let t1 = acc + "{:"@;
    let t2 = t1 + field;
    let t3 = t2 + " (. input "@;
    let t4 = t3 + field;
    lemma_holds_split(src, x, t4, ")}"@);
    reveal_strlit(")}");
    lemma_holds_split(src, x, t3, field);
    lemma_holds_split(src, x, t2, " (. input "@);
    reveal_strlit(" (. input ");
    lemma_holds_split(src, x, t1, field);
    lemma_holds_split(src, x, acc, "{:"@);
    reveal_strlit("{:");
    lemma_first_char(src, x + acc.len(), "{:"@);
}

/// The text of the payload that names a field of the input, written behind `acc`, holds its forms.
pub proof fn payload_field_at(
    src: Seq<char>,
    p: int,
    a: Seq<Form>,
    x: int,
    acc: Seq<char>,
    field: Seq<char>,
)
    requires
        holds(src, x, payload_field_text(acc, field)),
        lands(src, p, a, x + acc.len()),
        keyword_text(field),
        symbol_text(field),
    ensures
        lands(src, p, payload_field_run(a, field), x + payload_field_text(acc, field).len()),
{
    let t1 = acc + "{:"@;
    let t2 = t1 + field;
    let t3 = t2 + " (. input "@;
    let t4 = t3 + field;
    lemma_holds_split(src, x, t4, ")}"@);
    reveal_strlit(")}");
    lemma_holds_split(src, x, t3, field);
    lemma_holds_split(src, x, t2, " (. input "@);
    reveal_strlit(" (. input ");
    lemma_holds_split(src, x, t1, field);
    lemma_holds_split(src, x, acc, "{:"@);
    reveal_strlit("{:");
    lemma_payload_field(src, p, a, x + acc.len(), field);
}

/// `a` followed by the forms of the payload of validation errors.
pub open spec fn payload_errors_run(a: Seq<Form>) -> Seq<Form> {
    a.push(Form::List(Seq::<Form>::empty().push(sym("list"@)).push(sym("ValidationError"@))))
}

/// The text of the payload of validation errors holds its forms.
pub proof fn lemma_payload_errors(src: Seq<char>, p: int, a: Seq<Form>, b: int)
    requires
        lands(src, p, a, b),
        holds(src, b, "(list ValidationError)"@),
    ensures
        lands(src, p, payload_errors_run(a), b + 22),
{
    piece_payload_errors_0(src, b);
    lemma_blank_zero(src, b);
    lemma_lands_start(src, b + 1);
    let r1 = Seq::<Form>::empty();
    lemma_blank_zero(src, b + 1);
    word_list();
    step_symbol(src, b + 1, r1, b + 1, 0, "list"@);
    let r2 = r1.push(sym("list"@));
    word_validationerror();
    step_symbol(src, b + 1, r2, b + 5, 1, "ValidationError"@);
    let r3 = r2.push(sym("ValidationError"@));
    lemma_blank_zero(src, b + 21);
    lemma_lands_blank(src, b + 1, r3, b + 21, 0);
    step_list(src, p, a, b, 0, r3, b + 21);
    let r4 = a.push(Form::List(r3));
    lemma_blank_zero(src, b + 22);
}

/// `acc` followed by the text of the payload of validation errors.
pub open spec fn payload_errors_text(acc: Seq<char>) -> Seq<char> {
    acc + "(list ValidationError)"@
}

/// Where the payload of validation errors is written behind `acc`, `acc` is written before it.
pub proof fn payload_errors_cut(src: Seq<char>, x: int, acc: Seq<char>)
    requires
        holds(src, x, payload_errors_text(acc)),
    ensures
        holds(src, x, acc),
        x + (payload_errors_text(acc)).len() == x + acc.len() + 22,
        !cont_at(src, x + acc.len()),
{
    lemma_holds_split(src, x, acc, "(list ValidationError)"@);
    reveal_strlit("(list ValidationError)");
    lemma_first_char(src, x + acc.len(), "(list ValidationError)"@);
}

/// The text of the payload of validation errors, written behind `acc`, holds its forms.
pub proof fn payload_errors_at(src: Seq<char>, p: int, a: Seq<Form>, x: int, acc: Seq<char>)
    requires
        holds(src, x, payload_errors_text(acc)),
        lands(src, p, a, x + acc.len()),
    ensures
        lands(src, p, payload_errors_run(a), x + payload_errors_text(acc).len()),
{
    lemma_holds_split(src, x, acc, "(list ValidationError)"@);
    reveal_strlit("(list ValidationError)");
    lemma_payload_errors(src, p, a, x + acc.len());
}

/// `a` followed by the forms of the empty payload.
pub open spec fn payload_none_run(a: Seq<Form>) -> Seq<Form> {
    a.push(plain_map(Seq::<Form>::empty()))
}

/// The text of the empty payload holds its forms.
pub proof fn lemma_payload_none(src: Seq<char>, p: int, a: Seq<Form>, b: int)
    requires
        lands(src, p, a, b),
        holds(src, b, "{}"@),
    ensures
        lands(src, p, payload_none_run(a), b + 2),
{
    piece_payload_none_0(src, b);
    lemma_blank_zero(src, b);
    lemma_lands_start(src, b + 1);
    let r1 = Seq::<Form>::empty();
    lemma_blank_zero(src, b + 1);
    lemma_lands_blank(src, b + 1, r1, b + 1, 0);
    step_map(src, p, a, b, 0, r1, b + 1);
    let r2 = a.push(plain_map(r1));
    lemma_blank_zero(src, b + 2);
}

/// `acc` followed by the text of the empty payload.
pub open spec fn payload_none_text(acc: Seq<char>) -> Seq<char> {
    acc + "{}"@
}

/// Where the empty payload is written behind `acc`, `acc` is written before it.
pub proof fn payload_none_cut(src: Seq<char>, x: int, acc: Seq<char>)
    requires
        holds(src, x, payload_none_text(acc)),
    ensures
        holds(src, x, acc),
        x + (payload_none_text(acc)).len() == x + acc.len() + 2,
        !cont_at(src, x + acc.len()),
{
    lemma_holds_split(src, x, acc, "{}"@);
    reveal_strlit("{}");
    lemma_first_char(src, x + acc.len(), "{}"@);
}

/// The text of the empty payload, written behind `acc`, holds its forms.
pub proof fn payload_none_at(src: Seq<char>, p: int, a: Seq<Form>, x: int, acc: Seq<char>)
    requires
        holds(src, x, payload_none_text(acc)),
        lands(src, p, a, x + acc.len()),
    ensures
        lands(src, p, payload_none_run(a), x + payload_none_text(acc).len()),
{
    lemma_holds_split(src, x, acc, "{}"@);
    reveal_strlit("{}");
    lemma_payload_none(src, p, a, x + acc.len());
}

/// `a` followed by the forms of the body of a reading function.
pub open spec fn read_body_run(a: Seq<Form>, store: Seq<char>) -> Seq<Form> {
    a
        .push(
            Form::List(
                Seq::<Form>::empty()
                    .push(sym("let"@))
                    .push(
                        Form::Vector(
                            Seq::<Form>::empty()
                                .push(sym("validated-id"@))
                                .push(
                                    Form::List(
                                        Seq::<Form>::empty()
                                            .push(sym("validate-uuid"@))
                                            .push(sym("id"@)),
                                    ),
                                ),
                        ),
                    )
                    .push(
                        Form::List(
                            Seq::<Form>::empty()
                                .push(sym("match"@))
                                .push(sym("validated-id"@))
                                .push(
                                    Form::List(
                                        Seq::<Form>::empty().push(sym("err"@)).push(sym("_"@)),
                                    ),
                                )
                                .push(
                                    Form::List(
                                        Seq::<Form>::empty()
                                            .push(sym("err"@))
                                            .push(kw("invalid-id"@))
                                            .push(
                                                plain_map(
                                                    Seq::<Form>::empty()
                                                        .push(kw("id"@))
                                                        .push(sym("id"@)),
                                                ),
                                            ),
                                    ),
                                )
                                .push(
                                    Form::List(
                                        Seq::<Form>::empty().push(sym("ok"@)).push(sym("uuid"@)),
                                    ),
                                )
                                .push(
                                    Form::List(
                                        Seq::<Form>::empty()
                                            .push(sym("match"@))
                                            .push(
                                                Form::List(
                                                    Seq::<Form>::empty()
                                                        .push(sym("query"@))
                                                        .push(sym(store))
                                                        .push(
                                                            plain_map(
                                                                Seq::<Form>::empty()
                                                                    .push(kw("id"@))
                                                                    .push(sym("uuid"@)),
                                                            ),
                                                        ),
                                                ),
                                            )
                                            .push(
                                                Form::List(Seq::<Form>::empty().push(sym("none"@))),
                                            )
                                            .push(
                                                Form::List(
                                                    Seq::<Form>::empty()
                                                        .push(sym("err"@))
                                                        .push(kw("not-found"@))
                                                        .push(
                                                            plain_map(
                                                                Seq::<Form>::empty()
                                                                    .push(kw("id"@))
                                                                    .push(sym("uuid"@)),
                                                            ),
                                                        ),
                                                ),
                                            )
                                            .push(
                                                Form::List(
                                                    Seq::<Form>::empty()
                                                        .push(sym("some"@))
                                                        .push(sym("u"@)),
                                                ),
                                            )
                                            .push(
                                                Form::List(
                                                    Seq::<Form>::empty()
                                                        .push(sym("ok"@))
                                                        .push(sym("u"@)),
                                                ),
                                            ),
                                    ),
                                ),
                        ),
                    ),
            ),
        )
}

/// The text of the body of a reading function holds its forms.
pub proof fn lemma_read_body(src: Seq<char>, p: int, a: Seq<Form>, b: int, store: Seq<char>)
    requires
        lands(src, p, a, b),
        holds(src, b, "    (let [validated-id (validate-uuid id)]"@),
        holds(src, b + 42, "\n"@),
        holds(src, b + 43, "      (match validated-id"@),
        holds(src, b + 68, "\n"@),
        holds(src, b + 69, "        (err _)    (err :invalid-id {:id id})"@),
        holds(src, b + 114, "\n"@),
        holds(src, b + 115, "        (ok  uuid) (match (query "@),
        holds(src, b + 148, store),
        holds(src, b + store.len() + 148, " {:id uuid})"@),
        holds(src, b + store.len() + 160, "\n"@),
        holds(src, b + store.len() + 161, "          (none)   (err :not-found {:id uuid})"@),
        holds(src, b + store.len() + 207, "\n"@),
        holds(src, b + store.len() + 208, "          (some u) (ok u))))"@),
        symbol_text(store),
    ensures
        lands(src, p, read_body_run(a, store), b + store.len() + 236),
{
    piece_read_body_0(src, b);
    piece_header_8(src, b + 42);
    piece_read_body_2(src, b + 43);
    piece_header_2(src, b + 68);
    piece_read_body_4(src, b + 69);
    piece_header_8(src, b + 114);
    piece_read_body_6(src, b + 115);
    lemma_holds_bounds(src, b + 148, store);
    piece_read_body_8(src, b + store.len() + 148);
    piece_header_8(src, b + store.len() + 160);
    piece_read_body_10(src, b + store.len() + 161);
    piece_header_8(src, b + store.len() + 207);
    piece_read_body_12(src, b + store.len() + 208);
    lemma_lands_start(src, b + 5);
    let r1 = Seq::<Form>::empty();
    lemma_blank_zero(src, b + 5);
    word_let();
    step_symbol(src, b + 5, r1, b + 5, 0, "let"@);
    let r2 = r1.push(sym("let"@));
    lemma_lands_start(src, b + 10);
    let r3 = Seq::<Form>::empty();
    lemma_blank_zero(src, b + 10);
    word_validated_id();
    step_symbol(src, b + 10, r3, b + 10, 0, "validated-id"@);
    let r4 = r3.push(sym("validated-id"@));
    lemma_lands_start(src, b + 24);
    let r5 = Seq::<Form>::empty();
    lemma_blank_zero(src, b + 24);
    word_validate_uuid();
    step_symbol(src, b + 24, r5, b + 24, 0, "validate-uuid"@);
    let r6 = r5.push(sym("validate-uuid"@));
    word_id();
    step_symbol(src, b + 24, r6, b + 37, 1, "id"@);
    let r7 = r6.push(sym("id"@));
    lemma_blank_zero(src, b + 40);
    lemma_lands_blank(src, b + 24, r7, b + 40, 0);
    step_list(src, b + 10, r4, b + 22, 1, r7, b + 40);
    let r8 = r4.push(Form::List(r7));
    lemma_blank_zero(src, b + 41);
    lemma_lands_blank(src, b + 10, r8, b + 41, 0);
    step_vector(src, b + 5, r2, b + 8, 1, r8, b + 41);
    let r9 = r2.push(Form::Vector(r8));
    lemma_blank_join(src, b + 42, 1, 6);
    lemma_lands_start(src, b + 50);
    let r10 = Seq::<Form>::empty();
    lemma_blank_zero(src, b + 50);
    word_match();
    step_symbol(src, b + 50, r10, b + 50, 0, "match"@);
    let r11 = r10.push(sym("match"@));
    word_validated_id();
    step_symbol(src, b + 50, r11, b + 55, 1, "validated-id"@);
    let r12 = r11.push(sym("validated-id"@));
    lemma_blank_join(src, b + 68, 1, 8);
    lemma_lands_start(src, b + 78);
    let r13 = Seq::<Form>::empty();
    lemma_blank_zero(src, b + 78);
    word_err();
    step_symbol(src, b + 78, r13, b + 78, 0, "err"@);
    let r14 = r13.push(sym("err"@));
    word_w5f();
    step_symbol(src, b + 78, r14, b + 81, 1, "_"@);
    let r15 = r14.push(sym("_"@));
    lemma_blank_zero(src, b + 83);
    lemma_lands_blank(src, b + 78, r15, b + 83, 0);
    step_list(src, b + 50, r12, b + 68, 9, r15, b + 83);
    let r16 = r12.push(Form::List(r15));
    lemma_lands_start(src, b + 89);
    let r17 = Seq::<Form>::empty();
    lemma_blank_zero(src, b + 89);
    word_err();
    step_symbol(src, b + 89, r17, b + 89, 0, "err"@);
    let r18 = r17.push(sym("err"@));
    word_invalid_id();
    step_keyword(src, b + 89, r18, b + 92, 1, "invalid-id"@);
    let r19 = r18.push(kw("invalid-id"@));
    lemma_lands_start(src, b + 106);
    let r20 = Seq::<Form>::empty();
    lemma_blank_zero(src, b + 106);
    word_id();
    step_keyword(src, b + 106, r20, b + 106, 0, "id"@);
    let r21 = r20.push(kw("id"@));
    word_id();
    step_symbol(src, b + 106, r21, b + 109, 1, "id"@);
    let r22 = r21.push(sym("id"@));
    lemma_blank_zero(src, b + 112);
    lemma_lands_blank(src, b + 106, r22, b + 112, 0);
    step_map(src, b + 89, r19, b + 104, 1, r22, b + 112);
    let r23 = r19.push(plain_map(r22));
    lemma_blank_zero(src, b + 113);
    lemma_lands_blank(src, b + 89, r23, b + 113, 0);
    step_list(src, b + 50, r16, b + 84, 4, r23, b + 113);
    let r24 = r16.push(Form::List(r23));
    lemma_blank_join(src, b + 114, 1, 8);
    lemma_lands_start(src, b + 124);
    let r25 = Seq::<Form>::empty();
    lemma_blank_zero(src, b + 124);
    word_ok();
    step_symbol(src, b + 124, r25, b + 124, 0, "ok"@);
    let r26 = r25.push(sym("ok"@));
    word_uuid2();
    step_symbol(src, b + 124, r26, b + 126, 2, "uuid"@);
    let r27 = r26.push(sym("uuid"@));
    lemma_blank_zero(src, b + 132);
    lemma_lands_blank(src, b + 124, r27, b + 132, 0);
    step_list(src, b + 50, r24, b + 114, 9, r27, b + 132);
    let r28 = r24.push(Form::List(r27));
    lemma_lands_start(src, b + 135);
    let r29 = Seq::<Form>::empty();
    lemma_blank_zero(src, b + 135);
    word_match();
    step_symbol(src, b + 135, r29, b + 135, 0, "match"@);
    let r30 = r29.push(sym("match"@));
    lemma_lands_start(src, b + 142);
    let r31 = Seq::<Form>::empty();
    lemma_blank_zero(src, b + 142);
    word_query();
    step_symbol(src, b + 142, r31, b + 142, 0, "query"@);
    let r32 = r31.push(sym("query"@));
    step_symbol(src, b + 142, r32, b + 147, 1, store);
    let r33 = r32.push(sym(store));
    lemma_lands_start(src, b + store.len() + 150);
    let r34 = Seq::<Form>::empty();
    lemma_blank_zero(src, b + store.len() + 150);
    word_id();
    step_keyword(src, b + store.len() + 150, r34, b + store.len() + 150, 0, "id"@);
    let r35 = r34.push(kw("id"@));
    word_uuid2();
    step_symbol(src, b + store.len() + 150, r35, b + store.len() + 153, 1, "uuid"@);
    let r36 = r35.push(sym("uuid"@));
    lemma_blank_zero(src, b + store.len() + 158);
    lemma_lands_blank(src, b + store.len() + 150, r36, b + store.len() + 158, 0);
    step_map(src, b + 142, r33, b + store.len() + 148, 1, r36, b + store.len() + 158);
    let r37 = r33.push(plain_map(r36));
    lemma_blank_zero(src, b + store.len() + 159);
    lemma_lands_blank(src, b + 142, r37, b + store.len() + 159, 0);
    step_list(src, b + 135, r30, b + 140, 1, r37, b + store.len() + 159);
    let r38 = r30.push(Form::List(r37));
    lemma_blank_join(src, b + store.len() + 160, 1, 10);
    lemma_lands_start(src, b + store.len() + 172);
    let r39 = Seq::<Form>::empty();
    lemma_blank_zero(src, b + store.len() + 172);
    word_none();
    step_symbol(src, b + store.len() + 172, r39, b + store.len() + 172, 0, "none"@);
    let r40 = r39.push(sym("none"@));
    lemma_blank_zero(src, b + store.len() + 176);
    lemma_lands_blank(src, b + store.len() + 172, r40, b + store.len() + 176, 0);
    step_list(src, b + 135, r38, b + store.len() + 160, 11, r40, b + store.len() + 176);
    let r41 = r38.push(Form::List(r40));
    lemma_lands_start(src, b + store.len() + 181);
    let r42 = Seq::<Form>::empty();
    lemma_blank_zero(src, b + store.len() + 181);
    word_err();
    step_symbol(src, b + store.len() + 181, r42, b + store.len() + 181, 0, "err"@);
    let r43 = r42.push(sym("err"@));
    word_not_found();
    step_keyword(src, b + store.len() + 181, r43, b + store.len() + 184, 1, "not-found"@);
    let r44 = r43.push(kw("not-found"@));
    lemma_lands_start(src, b + store.len() + 197);
    let r45 = Seq::<Form>::empty();
    lemma_blank_zero(src, b + store.len() + 197);
    word_id();
    step_keyword(src, b + store.len() + 197, r45, b + store.len() + 197, 0, "id"@);
    let r46 = r45.push(kw("id"@));
    word_uuid2();
    step_symbol(src, b + store.len() + 197, r46, b + store.len() + 200, 1, "uuid"@);
    let r47 = r46.push(sym("uuid"@));
    lemma_blank_zero(src, b + store.len() + 205);
    lemma_lands_blank(src, b + store.len() + 197, r47, b + store.len() + 205, 0);
    step_map(src, b + store.len() + 181, r44, b + store.len() + 195, 1, r47, b + store.len() + 205);
    let r48 = r44.push(plain_map(r47));
    lemma_blank_zero(src, b + store.len() + 206);
    lemma_lands_blank(src, b + store.len() + 181, r48, b + store.len() + 206, 0);
    step_list(src, b + 135, r41, b + store.len() + 177, 3, r48, b + store.len() + 206);
    let r49 = r41.push(Form::List(r48));
    lemma_blank_join(src, b + store.len() + 207, 1, 10);
    lemma_lands_start(src, b + store.len() + 219);
    let r50 = Seq::<Form>::empty();
    lemma_blank_zero(src, b + store.len() + 219);
    word_some();
    step_symbol(src, b + store.len() + 219, r50, b + store.len() + 219, 0, "some"@);
    let r51 = r50.push(sym("some"@));
    word_u();
    step_symbol(src, b + store.len() + 219, r51, b + store.len() + 223, 1, "u"@);
    let r52 = r51.push(sym("u"@));
    lemma_blank_zero(src, b + store.len() + 225);
    lemma_lands_blank(src, b + store.len() + 219, r52, b + store.len() + 225, 0);
    step_list(src, b + 135, r49, b + store.len() + 207, 11, r52, b + store.len() + 225);
    let r53 = r49.push(Form::List(r52));
    lemma_lands_start(src, b + store.len() + 228);
    let r54 = Seq::<Form>::empty();
    lemma_blank_zero(src, b + store.len() + 228);
    word_ok();
    step_symbol(src, b + store.len() + 228, r54, b + store.len() + 228, 0, "ok"@);
    let r55 = r54.push(sym("ok"@));
    word_u();
    step_symbol(src, b + store.len() + 228, r55, b + store.len() + 230, 1, "u"@);
    let r56 = r55.push(sym("u"@));
    lemma_blank_zero(src, b + store.len() + 232);
    lemma_lands_blank(src, b + store.len() + 228, r56, b + store.len() + 232, 0);
    step_list(src, b + 135, r53, b + store.len() + 226, 1, r56, b + store.len() + 232);
    let r57 = r53.push(Form::List(r56));
    lemma_blank_zero(src, b + store.len() + 233);
    lemma_lands_blank(src, b + 135, r57, b + store.len() + 233, 0);
    step_list(src, b + 50, r28, b + 133, 1, r57, b + store.len() + 233);
    let r58 = r28.push(Form::List(r57));
    lemma_blank_zero(src, b + store.len() + 234);
    lemma_lands_blank(src, b + 50, r58, b + store.len() + 234, 0);
    step_list(src, b + 5, r9, b + 42, 7, r58, b + store.len() + 234);
    let r59 = r9.push(Form::List(r58));
    lemma_blank_zero(src, b + store.len() + 235);
    lemma_lands_blank(src, b + 5, r59, b + store.len() + 235, 0);
    step_list(src, p, a, b, 4, r59, b + store.len() + 235);
    let r60 = a.push(Form::List(r59));
    lemma_blank_zero(src, b + store.len() + 236);
}

/// `acc` followed by the text of the body of a reading function.
pub open spec fn read_body_text(acc: Seq<char>, store: Seq<char>) -> Seq<char> {
    acc
        + "    (let [validated-id (validate-uuid id)]"@
        + "\n"@
        + "      (match validated-id"@
        + "\n"@
        + "        (err _)    (err :invalid-id {:id id})"@
        + "\n"@
        + "        (ok  uuid) (match (query "@
        + store
        + " {:id uuid})"@
        + "\n"@
        + "          (none)   (err :not-found {:id uuid})"@
        + "\n"@
        + "          (some u) (ok u))))"@
}

/// Where the body of a reading function is written behind `acc`, `acc` is written before it.
pub proof fn read_body_cut(src: Seq<char>, x: int, acc: Seq<char>, store: Seq<char>)
    requires
        holds(src, x, read_body_text(acc, store)),
    ensures
        holds(src, x, acc),
        x + (read_body_text(acc, store)).len() == x + acc.len() + store.len() + 236,
        !cont_at(src, x + acc.len()),
{
    let t1 = acc + "    (let [validated-id (validate-uuid id)]"@;
    let t2 = t1 + "\n"@;
    let t3 = t2 + "      (match validated-id"@;
    let t4 = t3 + "\n"@;
    let t5 = t4 + "        (err _)    (err :invalid-id {:id id})"@;
    let t6 = t5 + "\n"@;
    let t7 = t6 + "        (ok  uuid) (match (query "@;
    let t8 = t7 + store;
    let t9 = t8 + " {:id uuid})"@;
    let t10 = t9 + "\n"@;
    let t11 = t10 + "          (none)   (err :not-found {:id uuid})"@;
    let t12 = t11 + "\n"@;
    lemma_holds_split(src, x, t12, "          (some u) (ok u))))"@);
    reveal_strlit("          (some u) (ok u))))");
    lemma_holds_split(src, x, t11, "\n"@);
    reveal_strlit("\n");
    lemma_holds_split(src, x, t10, "          (none)   (err :not-found {:id uuid})"@);
    reveal_strlit("          (none)   (err :not-found {:id uuid})");
    lemma_holds_split(src, x, t9, "\n"@);
    reveal_strlit("\n");
    lemma_holds_split(src, x, t8, " {:id uuid})"@);
    reveal_strlit(" {:id uuid})");
    lemma_holds_split(src, x, t7, store);
    lemma_holds_split(src, x, t6, "        (ok  uuid) (match (query "@);
    reveal_strlit("        (ok  uuid) (match (query ");
    lemma_holds_split(src, x, t5, "\n"@);
    reveal_strlit("\n");
    lemma_holds_split(src, x, t4, "        (err _)    (err :invalid-id {:id id})"@);
    reveal_strlit("        (err _)    (err :invalid-id {:id id})");
    lemma_holds_split(src, x, t3, "\n"@);
    reveal_strlit("\n");
    lemma_holds_split(src, x, t2, "      (match validated-id"@);
    reveal_strlit("      (match validated-id");
    lemma_holds_split(src, x, t1, "\n"@);
    reveal_strlit("\n");
    lemma_holds_split(src, x, acc, "    (let [validated-id (validate-uuid id)]"@);
    reveal_strlit("    (let [validated-id (validate-uuid id)]");
    lemma_first_char(src, x + acc.len(), "    (let [validated-id (validate-uuid id)]"@);
}

/// The text of the body of a reading function, written behind `acc`, holds its forms.
pub proof fn read_body_at(
    src: Seq<char>,
    p: int,
    a: Seq<Form>,
    x: int,
    acc: Seq<char>,
    store: Seq<char>,
)
    requires
        holds(src, x, read_body_text(acc, store)),
        lands(src, p, a, x + acc.len()),
        symbol_text(store),
    ensures
        lands(src, p, read_body_run(a, store), x + read_body_text(acc, store).len()),
{
    let t1 = acc + "    (let [validated-id (validate-uuid id)]"@;
    let t2 = t1 + "\n"@;
    let t3 = t2 + "      (match validated-id"@;
    let t4 = t3 + "\n"@;
    let t5 = t4 + "        (err _)    (err :invalid-id {:id id})"@;
    let t6 = t5 + "\n"@;
    let t7 = t6 + "        (ok  uuid) (match (query "@;
    let t8 = t7 + store;
    let t9 = t8 + " {:id uuid})"@;
    let t10 = t9 + "\n"@;
    let t11 = t10 + "          (none)   (err :not-found {:id uuid})"@;
    let t12 = t11 + "\n"@;
    lemma_holds_split(src, x, t12, "          (some u) (ok u))))"@);
    reveal_strlit("          (some u) (ok u))))");
    lemma_holds_split(src, x, t11, "\n"@);
    reveal_strlit("\n");
    lemma_holds_split(src, x, t10, "          (none)   (err :not-found {:id uuid})"@);
    reveal_strlit("          (none)   (err :not-found {:id uuid})");
    lemma_holds_split(src, x, t9, "\n"@);
    reveal_strlit("\n");
    lemma_holds_split(src, x, t8, " {:id uuid})"@);
    reveal_strlit(" {:id uuid})");
    lemma_holds_split(src, x, t7, store);
    lemma_holds_split(src, x, t6, "        (ok  uuid) (match (query "@);
    reveal_strlit("        (ok  uuid) (match (query ");
    lemma_holds_split(src, x, t5, "\n"@);
    reveal_strlit("\n");
    lemma_holds_split(src, x, t4, "        (err _)    (err :invalid-id {:id id})"@);
    reveal_strlit("        (err _)    (err :invalid-id {:id id})");
    lemma_holds_split(src, x, t3, "\n"@);
    reveal_strlit("\n");
    lemma_holds_split(src, x, t2, "      (match validated-id"@);
    reveal_strlit("      (match validated-id");
    lemma_holds_split(src, x, t1, "\n"@);
    reveal_strlit("\n");
    lemma_holds_split(src, x, acc, "    (let [validated-id (validate-uuid id)]"@);
    reveal_strlit("    (let [validated-id (validate-uuid id)]");
    lemma_read_body(src, p, a, x + acc.len(), store);
}

/// `a` followed by the forms of the body of a writing function with a unique field.
pub open spec fn write_body_field_run(
    a: Seq<Form>,
    store: Seq<char>,
    primary: Seq<char>,
    field: Seq<char>,
) -> Seq<Form> {
    a
        .push(
            Form::List(
                Seq::<Form>::empty()
                    .push(sym("let"@))
                    .push(
                        Form::Vector(
                            Seq::<Form>::empty()
                                .push(sym("errors"@))
                                .push(
                                    Form::List(
                                        Seq::<Form>::empty()
                                            .push(sym("validate-against"@))
                                            .push(sym(primary))
                                            .push(sym("input"@)),
                                    ),
                                ),
                        ),
                    )
                    .push(
                        Form::List(
                            Seq::<Form>::empty()
                                .push(sym("if"@))
                                .push(
                                    Form::List(
                                        Seq::<Form>::empty()
                                            .push(sym("non-empty?"@))
                                            .push(sym("errors"@)),
                                    ),
                                )
                                .push(
                                    Form::List(
                                        Seq::<Form>::empty()
                                            .push(sym("err"@))
                                            .push(kw("validation-failed"@))
                                            .push(sym("errors"@)),
                                    ),
                                )
                                .push(
                                    Form::List(
                                        Seq::<Form>::empty()
                                            .push(sym("match"@))
                                            .push(
                                                Form::List(
                                                    Seq::<Form>::empty()
                                                        .push(sym("insert!"@))
                                                        .push(sym(store))
                                                        .push(
                                                            Form::List(
                                                                Seq::<Form>::empty()
                                                                    .push(sym("build"@))
                                                                    .push(sym(primary))
                                                                    .push(sym("input"@)),
                                                            ),
                                                        ),
                                                ),
                                            )
                                            .push(
                                                Form::List(
                                                    Seq::<Form>::empty()
                                                        .push(sym("err"@))
                                                        .push(kw("unique-violation"@)),
                                                ),
                                            )
                                            .push(
                                                Form::List(
                                                    Seq::<Form>::empty()
                                                        .push(sym("err"@))
                                                        .push(kw("duplicate-"@ + field))
                                                        .push(
                                                            plain_map(
                                                                Seq::<Form>::empty()
                                                                    .push(kw(field))
                                                                    .push(
                                                                        Form::List(
                                                                            Seq::<Form>::empty()
                                                                                .push(sym("."@))
                                                                                .push(sym("input"@))
                                                                                .push(sym(field)),
                                                                        ),
                                                                    ),
                                                            ),
                                                        ),
                                                ),
                                            )
                                            .push(
                                                Form::List(
                                                    Seq::<Form>::empty()
                                                        .push(sym("ok"@))
                                                        .push(sym("entity"@)),
                                                ),
                                            )
                                            .push(
                                                Form::List(
                                                    Seq::<Form>::empty()
                                                        .push(sym("ok"@))
                                                        .push(sym("entity"@)),
                                                ),
                                            ),
                                    ),
                                ),
                        ),
                    ),
            ),
        )
}

/// The text of the body of a writing function with a unique field holds its forms.
pub proof fn lemma_write_body_field(
    src: Seq<char>,
    p: int,
    a: Seq<Form>,
    b: int,
    store: Seq<char>,
    primary: Seq<char>,
    field: Seq<char>,
)
    requires
        lands(src, p, a, b),
        holds(src, b, "    (let [errors (validate-against "@),
        holds(src, b + 35, primary),
        holds(src, b + primary.len() + 35, " input)]"@),
        holds(src, b + primary.len() + 43, "\n"@),
        holds(src, b + primary.len() + 44, "      (if (non-empty? errors)"@),
        holds(src, b + primary.len() + 73, "\n"@),
        holds(src, b + primary.len() + 74, "        (err :validation-failed errors)"@),
        holds(src, b + primary.len() + 113, "\n"@),
        holds(src, b + primary.len() + 114, "        (match (insert! "@),
        holds(src, b + primary.len() + 138, store),
        holds(src, b + primary.len() + store.len() + 138, " (build "@),
        holds(src, b + primary.len() + store.len() + 146, primary),
        holds(src, b + primary.len() + store.len() + primary.len() + 146, " input))"@),
        holds(src, b + primary.len() + store.len() + primary.len() + 154, "\n"@),
        holds(
            src,
            b + primary.len() + store.len() + primary.len() + 155,
            "          (err :unique-violation) (err :duplicate-"@,
        ),
        holds(src, b + primary.len() + store.len() + primary.len() + 205, field),
        holds(src, b + primary.len() + store.len() + primary.len() + field.len() + 205, " {:"@),
        holds(src, b + primary.len() + store.len() + primary.len() + field.len() + 208, field),
        holds(
            src,
            b + primary.len() + store.len() + primary.len() + field.len() + field.len() + 208,
            " (. input "@,
        ),
        holds(
            src,
            b + primary.len() + store.len() + primary.len() + field.len() + field.len() + 218,
            field,
        ),
        holds(
            src,
            b
                + primary.len()
                + store.len()
                + primary.len()
                + field.len()
                + field.len()
                + field.len()
                + 218,
            ")})"@,
        ),
        holds(
            src,
            b
                + primary.len()
                + store.len()
                + primary.len()
                + field.len()
                + field.len()
                + field.len()
                + 221,
            "\n"@,
        ),
        holds(
            src,
            b
                + primary.len()
                + store.len()
                + primary.len()
                + field.len()
                + field.len()
                + field.len()
                + 222,
            "          (ok entity)             (ok entity))))"@,
        ),
        symbol_text(store),
        symbol_text(primary),
        symbol_text(field),
        keyword_text(field),
        keyword_text("duplicate-"@ + field),
    ensures
        lands(
            src,
            p,
            write_body_field_run(a, store, primary, field),
            b
                + primary.len()
                + store.len()
                + primary.len()
                + field.len()
                + field.len()
                + field.len()
                + 270,
        ),
{
    piece_write_body_field_0(src, b);
    lemma_holds_bounds(src, b + 35, primary);
    piece_write_body_field_2(src, b + primary.len() + 35);
    piece_header_8(src, b + primary.len() + 43);
    piece_write_body_field_4(src, b + primary.len() + 44);
    piece_header_8(src, b + primary.len() + 73);
    piece_write_body_field_6(src, b + primary.len() + 74);
    piece_header_8(src, b + primary.len() + 113);
    piece_write_body_field_8(src, b + primary.len() + 114);
    lemma_holds_bounds(src, b + primary.len() + 138, store);
    piece_write_body_field_10(src, b + primary.len() + store.len() + 138);
    lemma_holds_bounds(src, b + primary.len() + store.len() + 146, primary);
    piece_write_body_field_12(src, b + primary.len() + store.len() + primary.len() + 146);
    piece_header_8(src, b + primary.len() + store.len() + primary.len() + 154);
    piece_write_body_field_14(src, b + primary.len() + store.len() + primary.len() + 155);
    lemma_holds_bounds(src, b + primary.len() + store.len() + primary.len() + 205, field);
    piece_write_body_field_16(
        src,
        b + primary.len() + store.len() + primary.len() + field.len() + 205,
    );
    lemma_holds_bounds(
        src,
        b + primary.len() + store.len() + primary.len() + field.len() + 208,
        field,
    );
    piece_payload_field_2(
        src,
        b + primary.len() + store.len() + primary.len() + field.len() + field.len() + 208,
    );
    lemma_holds_bounds(
        src,
        b + primary.len() + store.len() + primary.len() + field.len() + field.len() + 218,
        field,
    );
    piece_write_body_field_20(
        src,
        b
            + primary.len()
            + store.len()
            + primary.len()
            + field.len()
            + field.len()
            + field.len()
            + 218,
    );
    piece_header_8(
        src,
        b
            + primary.len()
            + store.len()
            + primary.len()
            + field.len()
            + field.len()
            + field.len()
            + 221,
    );
    piece_write_body_field_22(
        src,
        b
            + primary.len()
            + store.len()
            + primary.len()
            + field.len()
            + field.len()
            + field.len()
            + 222,
    );
    lemma_lands_start(src, b + 5);
    let r1 = Seq::<Form>::empty();
    lemma_blank_zero(src, b + 5);
    word_let();
    step_symbol(src, b + 5, r1, b + 5, 0, "let"@);
    let r2 = r1.push(sym("let"@));
    lemma_lands_start(src, b + 10);
    let r3 = Seq::<Form>::empty();
    lemma_blank_zero(src, b + 10);
    word_errors();
    step_symbol(src, b + 10, r3, b + 10, 0, "errors"@);
    let r4 = r3.push(sym("errors"@));
    lemma_lands_start(src, b + 18);
    let r5 = Seq::<Form>::empty();
    lemma_blank_zero(src, b + 18);
    word_validate_against();
    step_symbol(src, b + 18, r5, b + 18, 0, "validate-against"@);
    let r6 = r5.push(sym("validate-against"@));
    step_symbol(src, b + 18, r6, b + 34, 1, primary);
    let r7 = r6.push(sym(primary));
    word_input();
    step_symbol(src, b + 18, r7, b + primary.len() + 35, 1, "input"@);
    let r8 = r7.push(sym("input"@));
    lemma_blank_zero(src, b + primary.len() + 41);
    lemma_lands_blank(src, b + 18, r8, b + primary.len() + 41, 0);
    step_list(src, b + 10, r4, b + 16, 1, r8, b + primary.len() + 41);
    let r9 = r4.push(Form::List(r8));
    lemma_blank_zero(src, b + primary.len() + 42);
    lemma_lands_blank(src, b + 10, r9, b + primary.len() + 42, 0);
    step_vector(src, b + 5, r2, b + 8, 1, r9, b + primary.len() + 42);
    let r10 = r2.push(Form::Vector(r9));
    lemma_blank_join(src, b + primary.len() + 43, 1, 6);
    lemma_lands_start(src, b + primary.len() + 51);
    let r11 = Seq::<Form>::empty();
    lemma_blank_zero(src, b + primary.len() + 51);
    word_if();
    step_symbol(src, b + primary.len() + 51, r11, b + primary.len() + 51, 0, "if"@);
    let r12 = r11.push(sym("if"@));
    lemma_lands_start(src, b + primary.len() + 55);
    let r13 = Seq::<Form>::empty();
    lemma_blank_zero(src, b + primary.len() + 55);
    word_non_empty();
    step_symbol(src, b + primary.len() + 55, r13, b + primary.len() + 55, 0, "non-empty?"@);
    let r14 = r13.push(sym("non-empty?"@));
    word_errors();
    step_symbol(src, b + primary.len() + 55, r14, b + primary.len() + 65, 1, "errors"@);
    let r15 = r14.push(sym("errors"@));
    lemma_blank_zero(src, b + primary.len() + 72);
    lemma_lands_blank(src, b + primary.len() + 55, r15, b + primary.len() + 72, 0);
    step_list(
        src,
        b + primary.len() + 51,
        r12,
        b + primary.len() + 53,
        1,
        r15,
        b + primary.len() + 72,
    );
    let r16 = r12.push(Form::List(r15));
    lemma_blank_join(src, b + primary.len() + 73, 1, 8);
    lemma_lands_start(src, b + primary.len() + 83);
    let r17 = Seq::<Form>::empty();
    lemma_blank_zero(src, b + primary.len() + 83);
    word_err();
    step_symbol(src, b + primary.len() + 83, r17, b + primary.len() + 83, 0, "err"@);
    let r18 = r17.push(sym("err"@));
    word_validation_failed();
    step_keyword(src, b + primary.len() + 83, r18, b + primary.len() + 86, 1, "validation-failed"@);
    let r19 = r18.push(kw("validation-failed"@));
    word_errors();
    step_symbol(src, b + primary.len() + 83, r19, b + primary.len() + 105, 1, "errors"@);
    let r20 = r19.push(sym("errors"@));
    lemma_blank_zero(src, b + primary.len() + 112);
    lemma_lands_blank(src, b + primary.len() + 83, r20, b + primary.len() + 112, 0);
    step_list(
        src,
        b + primary.len() + 51,
        r16,
        b + primary.len() + 73,
        9,
        r20,
        b + primary.len() + 112,
    );
    let r21 = r16.push(Form::List(r20));
    lemma_blank_join(src, b + primary.len() + 113, 1, 8);
    lemma_lands_start(src, b + primary.len() + 123);
    let r22 = Seq::<Form>::empty();
    lemma_blank_zero(src, b + primary.len() + 123);
    word_match();
    step_symbol(src, b + primary.len() + 123, r22, b + primary.len() + 123, 0, "match"@);
    let r23 = r22.push(sym("match"@));
    lemma_lands_start(src, b + primary.len() + 130);
    let r24 = Seq::<Form>::empty();
    lemma_blank_zero(src, b + primary.len() + 130);
    word_insert();
    step_symbol(src, b + primary.len() + 130, r24, b + primary.len() + 130, 0, "insert!"@);
    let r25 = r24.push(sym("insert!"@));
    step_symbol(src, b + primary.len() + 130, r25, b + primary.len() + 137, 1, store);
    let r26 = r25.push(sym(store));
    lemma_lands_start(src, b + primary.len() + store.len() + 140);
    let r27 = Seq::<Form>::empty();
    lemma_blank_zero(src, b + primary.len() + store.len() + 140);
    word_build();
    step_symbol(
        src,
        b + primary.len() + store.len() + 140,
        r27,
        b + primary.len() + store.len() + 140,
        0,
        "build"@,
    );
    let r28 = r27.push(sym("build"@));
    step_symbol(
        src,
        b + primary.len() + store.len() + 140,
        r28,
        b + primary.len() + store.len() + 145,
        1,
        primary,
    );
    let r29 = r28.push(sym(primary));
    word_input();
    step_symbol(
        src,
        b + primary.len() + store.len() + 140,
        r29,
        b + primary.len() + store.len() + primary.len() + 146,
        1,
        "input"@,
    );
    let r30 = r29.push(sym("input"@));
    lemma_blank_zero(src, b + primary.len() + store.len() + primary.len() + 152);
    lemma_lands_blank(
        src,
        b + primary.len() + store.len() + 140,
        r30,
        b + primary.len() + store.len() + primary.len() + 152,
        0,
    );
    step_list(
        src,
        b + primary.len() + 130,
        r26,
        b + primary.len() + store.len() + 138,
        1,
        r30,
        b + primary.len() + store.len() + primary.len() + 152,
    );
    let r31 = r26.push(Form::List(r30));
    lemma_blank_zero(src, b + primary.len() + store.len() + primary.len() + 153);
    lemma_lands_blank(
        src,
        b + primary.len() + 130,
        r31,
        b + primary.len() + store.len() + primary.len() + 153,
        0,
    );
    step_list(
        src,
        b + primary.len() + 123,
        r23,
        b + primary.len() + 128,
        1,
        r31,
        b + primary.len() + store.len() + primary.len() + 153,
    );
    let r32 = r23.push(Form::List(r31));
    lemma_blank_join(src, b + primary.len() + store.len() + primary.len() + 154, 1, 10);
    lemma_lands_start(src, b + primary.len() + store.len() + primary.len() + 166);
    let r33 = Seq::<Form>::empty();
    lemma_blank_zero(src, b + primary.len() + store.len() + primary.len() + 166);
    word_err();
    step_symbol(
        src,
        b + primary.len() + store.len() + primary.len() + 166,
        r33,
        b + primary.len() + store.len() + primary.len() + 166,
        0,
        "err"@,
    );
    let r34 = r33.push(sym("err"@));
    word_unique_violation();
    step_keyword(
        src,
        b + primary.len() + store.len() + primary.len() + 166,
        r34,
        b + primary.len() + store.len() + primary.len() + 169,
        1,
        "unique-violation"@,
    );
    let r35 = r34.push(kw("unique-violation"@));
    lemma_blank_zero(src, b + primary.len() + store.len() + primary.len() + 187);
    lemma_lands_blank(
        src,
        b + primary.len() + store.len() + primary.len() + 166,
        r35,
        b + primary.len() + store.len() + primary.len() + 187,
        0,
    );
    step_list(
        src,
        b + primary.len() + 123,
        r32,
        b + primary.len() + store.len() + primary.len() + 154,
        11,
        r35,
        b + primary.len() + store.len() + primary.len() + 187,
    );
    let r36 = r32.push(Form::List(r35));
    lemma_lands_start(src, b + primary.len() + store.len() + primary.len() + 190);
    let r37 = Seq::<Form>::empty();
    lemma_blank_zero(src, b + primary.len() + store.len() + primary.len() + 190);
    word_err();
    step_symbol(
        src,
        b + primary.len() + store.len() + primary.len() + 190,
        r37,
        b + primary.len() + store.len() + primary.len() + 190,
        0,
        "err"@,
    );
    let r38 = r37.push(sym("err"@));
    lemma_holds_join(
        src,
        b + primary.len() + store.len() + primary.len() + 195,
        "duplicate-"@,
        field,
    );
    step_keyword(
        src,
        b + primary.len() + store.len() + primary.len() + 190,
        r38,
        b + primary.len() + store.len() + primary.len() + 193,
        1,
        "duplicate-"@ + field,
    );
    let r39 = r38.push(kw("duplicate-"@ + field));
    lemma_lands_start(src, b + primary.len() + store.len() + primary.len() + field.len() + 207);
    let r40 = Seq::<Form>::empty();
    lemma_blank_zero(src, b + primary.len() + store.len() + primary.len() + field.len() + 207);
    step_keyword(
        src,
        b + primary.len() + store.len() + primary.len() + field.len() + 207,
        r40,
        b + primary.len() + store.len() + primary.len() + field.len() + 207,
        0,
        field,
    );
    let r41 = r40.push(kw(field));
    lemma_lands_start(
        src,
        b + primary.len() + store.len() + primary.len() + field.len() + field.len() + 210,
    );
    let r42 = Seq::<Form>::empty();
    lemma_blank_zero(
        src,
        b + primary.len() + store.len() + primary.len() + field.len() + field.len() + 210,
    );
    word_w2e();
    step_symbol(
        src,
        b + primary.len() + store.len() + primary.len() + field.len() + field.len() + 210,
        r42,
        b + primary.len() + store.len() + primary.len() + field.len() + field.len() + 210,
        0,
        "."@,
    );
    let r43 = r42.push(sym("."@));
    word_input();
    step_symbol(
        src,
        b + primary.len() + store.len() + primary.len() + field.len() + field.len() + 210,
        r43,
        b + primary.len() + store.len() + primary.len() + field.len() + field.len() + 211,
        1,
        "input"@,
    );
    let r44 = r43.push(sym("input"@));
    step_symbol(
        src,
        b + primary.len() + store.len() + primary.len() + field.len() + field.len() + 210,
        r44,
        b + primary.len() + store.len() + primary.len() + field.len() + field.len() + 217,
        1,
        field,
    );
    let r45 = r44.push(sym(field));
    lemma_blank_zero(
        src,
        b
            + primary.len()
            + store.len()
            + primary.len()
            + field.len()
            + field.len()
            + field.len()
            + 218,
    );
    lemma_lands_blank(
        src,
        b + primary.len() + store.len() + primary.len() + field.len() + field.len() + 210,
        r45,
        b
            + primary.len()
            + store.len()
            + primary.len()
            + field.len()
            + field.len()
            + field.len()
            + 218,
        0,
    );
    step_list(
        src,
        b + primary.len() + store.len() + primary.len() + field.len() + 207,
        r41,
        b + primary.len() + store.len() + primary.len() + field.len() + field.len() + 208,
        1,
        r45,
        b
            + primary.len()
            + store.len()
            + primary.len()
            + field.len()
            + field.len()
            + field.len()
            + 218,
    );
    let r46 = r41.push(Form::List(r45));
    lemma_blank_zero(
        src,
        b
            + primary.len()
            + store.len()
            + primary.len()
            + field.len()
            + field.len()
            + field.len()
            + 219,
    );
    lemma_lands_blank(
        src,
        b + primary.len() + store.len() + primary.len() + field.len() + 207,
        r46,
        b
            + primary.len()
            + store.len()
            + primary.len()
            + field.len()
            + field.len()
            + field.len()
            + 219,
        0,
    );
    step_map(
        src,
        b + primary.len() + store.len() + primary.len() + 190,
        r39,
        b + primary.len() + store.len() + primary.len() + field.len() + 205,
        1,
        r46,
        b
            + primary.len()
            + store.len()
            + primary.len()
            + field.len()
            + field.len()
            + field.len()
            + 219,
    );
    let r47 = r39.push(plain_map(r46));
    lemma_blank_zero(
        src,
        b
            + primary.len()
            + store.len()
            + primary.len()
            + field.len()
            + field.len()
            + field.len()
            + 220,
    );
    lemma_lands_blank(
        src,
        b + primary.len() + store.len() + primary.len() + 190,
        r47,
        b
            + primary.len()
            + store.len()
            + primary.len()
            + field.len()
            + field.len()
            + field.len()
            + 220,
        0,
    );
    step_list(
        src,
        b + primary.len() + 123,
        r36,
        b + primary.len() + store.len() + primary.len() + 188,
        1,
        r47,
        b
            + primary.len()
            + store.len()
            + primary.len()
            + field.len()
            + field.len()
            + field.len()
            + 220,
    );
    let r48 = r36.push(Form::List(r47));
    lemma_blank_join(
        src,
        b
            + primary.len()
            + store.len()
            + primary.len()
            + field.len()
            + field.len()
            + field.len()
            + 221,
        1,
        10,
    );
    lemma_lands_start(
        src,
        b
            + primary.len()
            + store.len()
            + primary.len()
            + field.len()
            + field.len()
            + field.len()
            + 233,
    );
    let r49 = Seq::<Form>::empty();
    lemma_blank_zero(
        src,
        b
            + primary.len()
            + store.len()
            + primary.len()
            + field.len()
            + field.len()
            + field.len()
            + 233,
    );
    word_ok();
    step_symbol(
        src,
        b
            + primary.len()
            + store.len()
            + primary.len()
            + field.len()
            + field.len()
            + field.len()
            + 233,
        r49,
        b
            + primary.len()
            + store.len()
            + primary.len()
            + field.len()
            + field.len()
            + field.len()
            + 233,
        0,
        "ok"@,
    );
    let r50 = r49.push(sym("ok"@));
    word_entity();
    step_symbol(
        src,
        b
            + primary.len()
            + store.len()
            + primary.len()
            + field.len()
            + field.len()
            + field.len()
            + 233,
        r50,
        b
            + primary.len()
            + store.len()
            + primary.len()
            + field.len()
            + field.len()
            + field.len()
            + 235,
        1,
        "entity"@,
    );
    let r51 = r50.push(sym("entity"@));
    lemma_blank_zero(
        src,
        b
            + primary.len()
            + store.len()
            + primary.len()
            + field.len()
            + field.len()
            + field.len()
            + 242,
    );
    lemma_lands_blank(
        src,
        b
            + primary.len()
            + store.len()
            + primary.len()
            + field.len()
            + field.len()
            + field.len()
            + 233,
        r51,
        b
            + primary.len()
            + store.len()
            + primary.len()
            + field.len()
            + field.len()
            + field.len()
            + 242,
        0,
    );
    step_list(
        src,
        b + primary.len() + 123,
        r48,
        b
            + primary.len()
            + store.len()
            + primary.len()
            + field.len()
            + field.len()
            + field.len()
            + 221,
        11,
        r51,
        b
            + primary.len()
            + store.len()
            + primary.len()
            + field.len()
            + field.len()
            + field.len()
            + 242,
    );
    let r52 = r48.push(Form::List(r51));
    lemma_lands_start(
        src,
        b
            + primary.len()
            + store.len()
            + primary.len()
            + field.len()
            + field.len()
            + field.len()
            + 257,
    );
    let r53 = Seq::<Form>::empty();
    lemma_blank_zero(
        src,
        b
            + primary.len()
            + store.len()
            + primary.len()
            + field.len()
            + field.len()
            + field.len()
            + 257,
    );
    word_ok();
    step_symbol(
        src,
        b
            + primary.len()
            + store.len()
            + primary.len()
            + field.len()
            + field.len()
            + field.len()
            + 257,
        r53,
        b
            + primary.len()
            + store.len()
            + primary.len()
            + field.len()
            + field.len()
            + field.len()
            + 257,
        0,
        "ok"@,
    );
    let r54 = r53.push(sym("ok"@));
    word_entity();
    step_symbol(
        src,
        b
            + primary.len()
            + store.len()
            + primary.len()
            + field.len()
            + field.len()
            + field.len()
            + 257,
        r54,
        b
            + primary.len()
            + store.len()
            + primary.len()
            + field.len()
            + field.len()
            + field.len()
            + 259,
        1,
        "entity"@,
    );
    let r55 = r54.push(sym("entity"@));
    lemma_blank_zero(
        src,
        b
            + primary.len()
            + store.len()
            + primary.len()
            + field.len()
            + field.len()
            + field.len()
            + 266,
    );
    lemma_lands_blank(
        src,
        b
            + primary.len()
            + store.len()
            + primary.len()
            + field.len()
            + field.len()
            + field.len()
            + 257,
        r55,
        b
            + primary.len()
            + store.len()
            + primary.len()
            + field.len()
            + field.len()
            + field.len()
            + 266,
        0,
    );
    step_list(
        src,
        b + primary.len() + 123,
        r52,
        b
            + primary.len()
            + store.len()
            + primary.len()
            + field.len()
            + field.len()
            + field.len()
            + 243,
        13,
        r55,
        b
            + primary.len()
            + store.len()
            + primary.len()
            + field.len()
            + field.len()
            + field.len()
            + 266,
    );
    let r56 = r52.push(Form::List(r55));
    lemma_blank_zero(
        src,
        b
            + primary.len()
            + store.len()
            + primary.len()
            + field.len()
            + field.len()
            + field.len()
            + 267,
    );
    lemma_lands_blank(
        src,
        b + primary.len() + 123,
        r56,
        b
            + primary.len()
            + store.len()
            + primary.len()
            + field.len()
            + field.len()
            + field.len()
            + 267,
        0,
    );
    step_list(
        src,
        b + primary.len() + 51,
        r21,
        b + primary.len() + 113,
        9,
        r56,
        b
            + primary.len()
            + store.len()
            + primary.len()
            + field.len()
            + field.len()
            + field.len()
            + 267,
    );
    let r57 = r21.push(Form::List(r56));
    lemma_blank_zero(
        src,
        b
            + primary.len()
            + store.len()
            + primary.len()
            + field.len()
            + field.len()
            + field.len()
            + 268,
    );
    lemma_lands_blank(
        src,
        b + primary.len() + 51,
        r57,
        b
            + primary.len()
            + store.len()
            + primary.len()
            + field.len()
            + field.len()
            + field.len()
            + 268,
        0,
    );
    step_list(
        src,
        b + 5,
        r10,
        b + primary.len() + 43,
        7,
        r57,
        b
            + primary.len()
            + store.len()
            + primary.len()
            + field.len()
            + field.len()
            + field.len()
            + 268,
    );
    let r58 = r10.push(Form::List(r57));
    lemma_blank_zero(
        src,
        b
            + primary.len()
            + store.len()
            + primary.len()
            + field.len()
            + field.len()
            + field.len()
            + 269,
    );
    lemma_lands_blank(
        src,
        b + 5,
        r58,
        b
            + primary.len()
            + store.len()
            + primary.len()
            + field.len()
            + field.len()
            + field.len()
            + 269,
        0,
    );
    step_list(
        src,
        p,
        a,
        b,
        4,
        r58,
        b
            + primary.len()
            + store.len()
            + primary.len()
            + field.len()
            + field.len()
            + field.len()
            + 269,
    );
    let r59 = a.push(Form::List(r58));
    lemma_blank_zero(
        src,
        b
            + primary.len()
            + store.len()
            + primary.len()
            + field.len()
            + field.len()
            + field.len()
            + 270,
    );
}

/// `acc` followed by the text of the body of a writing function with a unique field.
pub open spec fn write_body_field_text(
    acc: Seq<char>,
    store: Seq<char>,
    primary: Seq<char>,
    field: Seq<char>,
) -> Seq<char> {
    acc
        + "    (let [errors (validate-against "@
        + primary
        + " input)]"@
        + "\n"@
        + "      (if (non-empty? errors)"@
        + "\n"@
        + "        (err :validation-failed errors)"@
        + "\n"@
        + "        (match (insert! "@
        + store
        + " (build "@
        + primary
        + " input))"@
        + "\n"@
        + "          (err :unique-violation) (err :duplicate-"@
        + field
        + " {:"@
        + field
        + " (. input "@
        + field
        + ")})"@
        + "\n"@
        + "          (ok entity)             (ok entity))))"@
}

/// Where the body of a writing function with a unique field is written behind `acc`, `acc` is
/// written before it.
pub proof fn write_body_field_cut(
    src: Seq<char>,
    x: int,
    acc: Seq<char>,
    store: Seq<char>,
    primary: Seq<char>,
    field: Seq<char>,
)
    requires
        holds(src, x, write_body_field_text(acc, store, primary, field)),
    ensures
        holds(src, x, acc),
        x + (write_body_field_text(acc, store, primary, field)).len()
            == x
                + acc.len()
                + primary.len()
                + store.len()
                + primary.len()
                + field.len()
                + field.len()
                + field.len()
                + 270,
        !cont_at(src, x + acc.len()),
{
    let t1 = acc + "    (let [errors (validate-against "@;
    let t2 = t1 + primary;
    let t3 = t2 + " input)]"@;
    let t4 = t3 + "\n"@;
    let t5 = t4 + "      (if (non-empty? errors)"@;
    let t6 = t5 + "\n"@;
    let t7 = t6 + "        (err :validation-failed errors)"@;
    let t8 = t7 + "\n"@;
    let t9 = t8 + "        (match (insert! "@;
    let t10 = t9 + store;
    let t11 = t10 + " (build "@;
    let t12 = t11 + primary;
    let t13 = t12 + " input))"@;
    let t14 = t13 + "\n"@;
    let t15 = t14 + "          (err :unique-violation) (err :duplicate-"@;
    let t16 = t15 + field;
    let t17 = t16 + " {:"@;
    let t18 = t17 + field;
    let t19 = t18 + " (. input "@;
    let t20 = t19 + field;
    let t21 = t20 + ")})"@;
    let t22 = t21 + "\n"@;
    lemma_holds_split(src, x, t22, "          (ok entity)             (ok entity))))"@);
    reveal_strlit("          (ok entity)             (ok entity))))");
    lemma_holds_split(src, x, t21, "\n"@);
    reveal_strlit("\n");
    lemma_holds_split(src, x, t20, ")})"@);
    reveal_strlit(")})");
    lemma_holds_split(src, x, t19, field);
    lemma_holds_split(src, x, t18, " (. input "@);
    reveal_strlit(" (. input ");
    lemma_holds_split(src, x, t17, field);
    lemma_holds_split(src, x, t16, " {:"@);
    reveal_strlit(" {:");
    lemma_holds_split(src, x, t15, field);
    lemma_holds_split(src, x, t14, "          (err :unique-violation) (err :duplicate-"@);
    reveal_strlit("          (err :unique-violation) (err :duplicate-");
    lemma_holds_split(src, x, t13, "\n"@);
    reveal_strlit("\n");
    lemma_holds_split(src, x, t12, " input))"@);
    reveal_strlit(" input))");
    lemma_holds_split(src, x, t11, primary);
    lemma_holds_split(src, x, t10, " (build "@);
    reveal_strlit(" (build ");
    lemma_holds_split(src, x, t9, store);
    lemma_holds_split(src, x, t8, "        (match (insert! "@);
    reveal_strlit("        (match (insert! ");
    lemma_holds_split(src, x, t7, "\n"@);
    reveal_strlit("\n");
    lemma_holds_split(src, x, t6, "        (err :validation-failed errors)"@);
    reveal_strlit("        (err :validation-failed errors)");
    lemma_holds_split(src, x, t5, "\n"@);
    reveal_strlit("\n");
    lemma_holds_split(src, x, t4, "      (if (non-empty? errors)"@);
    reveal_strlit("      (if (non-empty? errors)");
    lemma_holds_split(src, x, t3, "\n"@);
    reveal_strlit("\n");
    lemma_holds_split(src, x, t2, " input)]"@);
    reveal_strlit(" input)]");
    lemma_holds_split(src, x, t1, primary);
    lemma_holds_split(src, x, acc, "    (let [errors (validate-against "@);
    reveal_strlit("    (let [errors (validate-against ");
    lemma_first_char(src, x + acc.len(), "    (let [errors (validate-against "@);
}

/// The text of the body of a writing function with a unique field, written behind `acc`, holds its
/// forms.
pub proof fn write_body_field_at(
    src: Seq<char>,
    p: int,
    a: Seq<Form>,
    x: int,
    acc: Seq<char>,
    store: Seq<char>,
    primary: Seq<char>,
    field: Seq<char>,
)
    requires
        holds(src, x, write_body_field_text(acc, store, primary, field)),
        lands(src, p, a, x + acc.len()),
        symbol_text(store),
        symbol_text(primary),
        symbol_text(field),
        keyword_text(field),
        keyword_text("duplicate-"@ + field),
    ensures
        lands(
            src,
            p,
            write_body_field_run(a, store, primary, field),
            x + write_body_field_text(acc, store, primary, field).len(),
        ),
{
    let t1 = acc + "    (let [errors (validate-against "@;
    let t2 = t1 + primary;
    let t3 = t2 + " input)]"@;
    let t4 = t3 + "\n"@;
    let t5 = t4 + "      (if (non-empty? errors)"@;
    let t6 = t5 + "\n"@;
    let t7 = t6 + "        (err :validation-failed errors)"@;
    let t8 = t7 + "\n"@;
    let t9 = t8 + "        (match (insert! "@;
    let t10 = t9 + store;
    let t11 = t10 + " (build "@;
    let t12 = t11 + primary;
    let t13 = t12 + " input))"@;
    let t14 = t13 + "\n"@;
    let t15 = t14 + "          (err :unique-violation) (err :duplicate-"@;
    let t16 = t15 + field;
    let t17 = t16 + " {:"@;
    let t18 = t17 + field;
    let t19 = t18 + " (. input "@;
    let t20 = t19 + field;
    let t21 = t20 + ")})"@;
    let t22 = t21 + "\n"@;
    lemma_holds_split(src, x, t22, "          (ok entity)             (ok entity))))"@);
    reveal_strlit("          (ok entity)             (ok entity))))");
    lemma_holds_split(src, x, t21, "\n"@);
    reveal_strlit("\n");
    lemma_holds_split(src, x, t20, ")})"@);
    reveal_strlit(")})");
    lemma_holds_split(src, x, t19, field);
    lemma_holds_split(src, x, t18, " (. input "@);
    reveal_strlit(" (. input ");
    lemma_holds_split(src, x, t17, field);
    lemma_holds_split(src, x, t16, " {:"@);
    reveal_strlit(" {:");
    lemma_holds_split(src, x, t15, field);
    lemma_holds_split(src, x, t14, "          (err :unique-violation) (err :duplicate-"@);
    reveal_strlit("          (err :unique-violation) (err :duplicate-");
    lemma_holds_split(src, x, t13, "\n"@);
    reveal_strlit("\n");
    lemma_holds_split(src, x, t12, " input))"@);
    reveal_strlit(" input))");
    lemma_holds_split(src, x, t11, primary);
    lemma_holds_split(src, x, t10, " (build "@);
    reveal_strlit(" (build ");
    lemma_holds_split(src, x, t9, store);
    lemma_holds_split(src, x, t8, "        (match (insert! "@);
    reveal_strlit("        (match (insert! ");
    lemma_holds_split(src, x, t7, "\n"@);
    reveal_strlit("\n");
    lemma_holds_split(src, x, t6, "        (err :validation-failed errors)"@);
    reveal_strlit("        (err :validation-failed errors)");
    lemma_holds_split(src, x, t5, "\n"@);
    reveal_strlit("\n");
    lemma_holds_split(src, x, t4, "      (if (non-empty? errors)"@);
    reveal_strlit("      (if (non-empty? errors)");
    lemma_holds_split(src, x, t3, "\n"@);
    reveal_strlit("\n");
    lemma_holds_split(src, x, t2, " input)]"@);
    reveal_strlit(" input)]");
    lemma_holds_split(src, x, t1, primary);
    lemma_holds_split(src, x, acc, "    (let [errors (validate-against "@);
    reveal_strlit("    (let [errors (validate-against ");
    lemma_write_body_field(src, p, a, x + acc.len(), store, primary, field);
}

/// `a` followed by the forms of the body of a writing function.
pub open spec fn write_body_plain_run(
    a: Seq<Form>,
    store: Seq<char>,
    primary: Seq<char>,
) -> Seq<Form> {
    a
        .push(
            Form::List(
                Seq::<Form>::empty()
                    .push(sym("let"@))
                    .push(
                        Form::Vector(
                            Seq::<Form>::empty()
                                .push(sym("errors"@))
                                .push(
                                    Form::List(
                                        Seq::<Form>::empty()
                                            .push(sym("validate-against"@))
                                            .push(sym(primary))
                                            .push(sym("input"@)),
                                    ),
                                ),
                        ),
                    )
                    .push(
                        Form::List(
                            Seq::<Form>::empty()
                                .push(sym("if"@))
                                .push(
                                    Form::List(
                                        Seq::<Form>::empty()
                                            .push(sym("non-empty?"@))
                                            .push(sym("errors"@)),
                                    ),
                                )
                                .push(
                                    Form::List(
                                        Seq::<Form>::empty()
                                            .push(sym("err"@))
                                            .push(kw("validation-failed"@))
                                            .push(sym("errors"@)),
                                    ),
                                )
                                .push(
                                    Form::List(
                                        Seq::<Form>::empty()
                                            .push(sym("match"@))
                                            .push(
                                                Form::List(
                                                    Seq::<Form>::empty()
                                                        .push(sym("insert!"@))
                                                        .push(sym(store))
                                                        .push(
                                                            Form::List(
                                                                Seq::<Form>::empty()
                                                                    .push(sym("build"@))
                                                                    .push(sym(primary))
                                                                    .push(sym("input"@)),
                                                            ),
                                                        ),
                                                ),
                                            )
                                            .push(
                                                Form::List(
                                                    Seq::<Form>::empty()
                                                        .push(sym("err"@))
                                                        .push(kw("unique-violation"@)),
                                                ),
                                            )
                                            .push(
                                                Form::List(
                                                    Seq::<Form>::empty()
                                                        .push(sym("err"@))
                                                        .push(kw("duplicate"@))
                                                        .push(
                                                            plain_map(
                                                                Seq::<Form>::empty()
                                                                    .push(kw("input"@))
                                                                    .push(sym("input"@)),
                                                            ),
                                                        ),
                                                ),
                                            )
                                            .push(
                                                Form::List(
                                                    Seq::<Form>::empty()
                                                        .push(sym("ok"@))
                                                        .push(sym("entity"@)),
                                                ),
                                            )
                                            .push(
                                                Form::List(
                                                    Seq::<Form>::empty()
                                                        .push(sym("ok"@))
                                                        .push(sym("entity"@)),
                                                ),
                                            ),
                                    ),
                                ),
                        ),
                    ),
            ),
        )
}

/// The text of the body of a writing function holds its forms.
pub proof fn lemma_write_body_plain(
    src: Seq<char>,
    p: int,
    a: Seq<Form>,
    b: int,
    store: Seq<char>,
    primary: Seq<char>,
)
    requires
        lands(src, p, a, b),
        holds(src, b, "    (let [errors (validate-against "@),
        holds(src, b + 35, primary),
        holds(src, b + primary.len() + 35, " input)]"@),
        holds(src, b + primary.len() + 43, "\n"@),
        holds(src, b + primary.len() + 44, "      (if (non-empty? errors)"@),
        holds(src, b + primary.len() + 73, "\n"@),
        holds(src, b + primary.len() + 74, "        (err :validation-failed errors)"@),
        holds(src, b + primary.len() + 113, "\n"@),
        holds(src, b + primary.len() + 114, "        (match (insert! "@),
        holds(src, b + primary.len() + 138, store),
        holds(src, b + primary.len() + store.len() + 138, " (build "@),
        holds(src, b + primary.len() + store.len() + 146, primary),
        holds(src, b + primary.len() + store.len() + primary.len() + 146, " input))"@),
        holds(src, b + primary.len() + store.len() + primary.len() + 154, "\n"@),
        holds(
            src,
            b + primary.len() + store.len() + primary.len() + 155,
            "          (err :unique-violation) (err :duplicate {:input input})"@,
        ),
        holds(src, b + primary.len() + store.len() + primary.len() + 220, "\n"@),
        holds(
            src,
            b + primary.len() + store.len() + primary.len() + 221,
            "          (ok entity)             (ok entity))))"@,
        ),
        symbol_text(store),
        symbol_text(primary),
    ensures
        lands(
            src,
            p,
            write_body_plain_run(a, store, primary),
            b + primary.len() + store.len() + primary.len() + 269,
        ),
{
    piece_write_body_field_0(src, b);
    lemma_holds_bounds(src, b + 35, primary);
    piece_write_body_field_2(src, b + primary.len() + 35);
    piece_header_8(src, b + primary.len() + 43);
    piece_write_body_field_4(src, b + primary.len() + 44);
    piece_header_8(src, b + primary.len() + 73);
    piece_write_body_field_6(src, b + primary.len() + 74);
    piece_header_8(src, b + primary.len() + 113);
    piece_write_body_field_8(src, b + primary.len() + 114);
    lemma_holds_bounds(src, b + primary.len() + 138, store);
    piece_write_body_field_10(src, b + primary.len() + store.len() + 138);
    lemma_holds_bounds(src, b + primary.len() + store.len() + 146, primary);
    piece_write_body_field_12(src, b + primary.len() + store.len() + primary.len() + 146);
    piece_header_8(src, b + primary.len() + store.len() + primary.len() + 154);
    piece_write_body_plain_14(src, b + primary.len() + store.len() + primary.len() + 155);
    piece_header_8(src, b + primary.len() + store.len() + primary.len() + 220);
    piece_write_body_field_22(src, b + primary.len() + store.len() + primary.len() + 221);
    lemma_lands_start(src, b + 5);
    let r1 = Seq::<Form>::empty();
    lemma_blank_zero(src, b + 5);
    word_let();
    step_symbol(src, b + 5, r1, b + 5, 0, "let"@);
    let r2 = r1.push(sym("let"@));
    lemma_lands_start(src, b + 10);
    let r3 = Seq::<Form>::empty();
    lemma_blank_zero(src, b + 10);
    word_errors();
    step_symbol(src, b + 10, r3, b + 10, 0, "errors"@);
    let r4 = r3.push(sym("errors"@));
    lemma_lands_start(src, b + 18);
    let r5 = Seq::<Form>::empty();
    lemma_blank_zero(src, b + 18);
    word_validate_against();
    step_symbol(src, b + 18, r5, b + 18, 0, "validate-against"@);
    let r6 = r5.push(sym("validate-against"@));
    step_symbol(src, b + 18, r6, b + 34, 1, primary);
    let r7 = r6.push(sym(primary));
    word_input();
    step_symbol(src, b + 18, r7, b + primary.len() + 35, 1, "input"@);
    let r8 = r7.push(sym("input"@));
    lemma_blank_zero(src, b + primary.len() + 41);
    lemma_lands_blank(src, b + 18, r8, b + primary.len() + 41, 0);
    step_list(src, b + 10, r4, b + 16, 1, r8, b + primary.len() + 41);
    let r9 = r4.push(Form::List(r8));
    lemma_blank_zero(src, b + primary.len() + 42);
    lemma_lands_blank(src, b + 10, r9, b + primary.len() + 42, 0);
    step_vector(src, b + 5, r2, b + 8, 1, r9, b + primary.len() + 42);
    let r10 = r2.push(Form::Vector(r9));
    lemma_blank_join(src, b + primary.len() + 43, 1, 6);
    lemma_lands_start(src, b + primary.len() + 51);
    let r11 = Seq::<Form>::empty();
    lemma_blank_zero(src, b + primary.len() + 51);
    word_if();
    step_symbol(src, b + primary.len() + 51, r11, b + primary.len() + 51, 0, "if"@);
    let r12 = r11.push(sym("if"@));
    lemma_lands_start(src, b + primary.len() + 55);
    let r13 = Seq::<Form>::empty();
    lemma_blank_zero(src, b + primary.len() + 55);
    word_non_empty();
    step_symbol(src, b + primary.len() + 55, r13, b + primary.len() + 55, 0, "non-empty?"@);
    let r14 = r13.push(sym("non-empty?"@));
    word_errors();
    step_symbol(src, b + primary.len() + 55, r14, b + primary.len() + 65, 1, "errors"@);
    let r15 = r14.push(sym("errors"@));
    lemma_blank_zero(src, b + primary.len() + 72);
    lemma_lands_blank(src, b + primary.len() + 55, r15, b + primary.len() + 72, 0);
    step_list(
        src,
        b + primary.len() + 51,
        r12,
        b + primary.len() + 53,
        1,
        r15,
        b + primary.len() + 72,
    );
    let r16 = r12.push(Form::List(r15));
    lemma_blank_join(src, b + primary.len() + 73, 1, 8);
    lemma_lands_start(src, b + primary.len() + 83);
    let r17 = Seq::<Form>::empty();
    lemma_blank_zero(src, b + primary.len() + 83);
    word_err();
    step_symbol(src, b + primary.len() + 83, r17, b + primary.len() + 83, 0, "err"@);
    let r18 = r17.push(sym("err"@));
    word_validation_failed();
    step_keyword(src, b + primary.len() + 83, r18, b + primary.len() + 86, 1, "validation-failed"@);
    let r19 = r18.push(kw("validation-failed"@));
    word_errors();
    step_symbol(src, b + primary.len() + 83, r19, b + primary.len() + 105, 1, "errors"@);
    let r20 = r19.push(sym("errors"@));
    lemma_blank_zero(src, b + primary.len() + 112);
    lemma_lands_blank(src, b + primary.len() + 83, r20, b + primary.len() + 112, 0);
    step_list(
        src,
        b + primary.len() + 51,
        r16,
        b + primary.len() + 73,
        9,
        r20,
        b + primary.len() + 112,
    );
    let r21 = r16.push(Form::List(r20));
    lemma_blank_join(src, b + primary.len() + 113, 1, 8);
    lemma_lands_start(src, b + primary.len() + 123);
    let r22 = Seq::<Form>::empty();
    lemma_blank_zero(src, b + primary.len() + 123);
    word_match();
    step_symbol(src, b + primary.len() + 123, r22, b + primary.len() + 123, 0, "match"@);
    let r23 = r22.push(sym("match"@));
    lemma_lands_start(src, b + primary.len() + 130);
    let r24 = Seq::<Form>::empty();
    lemma_blank_zero(src, b + primary.len() + 130);
    word_insert();
    step_symbol(src, b + primary.len() + 130, r24, b + primary.len() + 130, 0, "insert!"@);
    let r25 = r24.push(sym("insert!"@));
    step_symbol(src, b + primary.len() + 130, r25, b + primary.len() + 137, 1, store);
    let r26 = r25.push(sym(store));
    lemma_lands_start(src, b + primary.len() + store.len() + 140);
    let r27 = Seq::<Form>::empty();
    lemma_blank_zero(src, b + primary.len() + store.len() + 140);
    word_build();
    step_symbol(
        src,
        b + primary.len() + store.len() + 140,
        r27,
        b + primary.len() + store.len() + 140,
        0,
        "build"@,
    );
    let r28 = r27.push(sym("build"@));
    step_symbol(
        src,
        b + primary.len() + store.len() + 140,
        r28,
        b + primary.len() + store.len() + 145,
        1,
        primary,
    );
    let r29 = r28.push(sym(primary));
    word_input();
    step_symbol(
        src,
        b + primary.len() + store.len() + 140,
        r29,
        b + primary.len() + store.len() + primary.len() + 146,
        1,
        "input"@,
    );
    let r30 = r29.push(sym("input"@));
    lemma_blank_zero(src, b + primary.len() + store.len() + primary.len() + 152);
    lemma_lands_blank(
        src,
        b + primary.len() + store.len() + 140,
        r30,
        b + primary.len() + store.len() + primary.len() + 152,
        0,
    );
    step_list(
        src,
        b + primary.len() + 130,
        r26,
        b + primary.len() + store.len() + 138,
        1,
        r30,
        b + primary.len() + store.len() + primary.len() + 152,
    );
    let r31 = r26.push(Form::List(r30));
    lemma_blank_zero(src, b + primary.len() + store.len() + primary.len() + 153);
    lemma_lands_blank(
        src,
        b + primary.len() + 130,
        r31,
        b + primary.len() + store.len() + primary.len() + 153,
        0,
    );
    step_list(
        src,
        b + primary.len() + 123,
        r23,
        b + primary.len() + 128,
        1,
        r31,
        b + primary.len() + store.len() + primary.len() + 153,
    );
    let r32 = r23.push(Form::List(r31));
    lemma_blank_join(src, b + primary.len() + store.len() + primary.len() + 154, 1, 10);
    lemma_lands_start(src, b + primary.len() + store.len() + primary.len() + 166);
    let r33 = Seq::<Form>::empty();
    lemma_blank_zero(src, b + primary.len() + store.len() + primary.len() + 166);
    word_err();
    step_symbol(
        src,
        b + primary.len() + store.len() + primary.len() + 166,
        r33,
        b + primary.len() + store.len() + primary.len() + 166,
        0,
        "err"@,
    );
    let r34 = r33.push(sym("err"@));
    word_unique_violation();
    step_keyword(
        src,
        b + primary.len() + store.len() + primary.len() + 166,
        r34,
        b + primary.len() + store.len() + primary.len() + 169,
        1,
        "unique-violation"@,
    );
    let r35 = r34.push(kw("unique-violation"@));
    lemma_blank_zero(src, b + primary.len() + store.len() + primary.len() + 187);
    lemma_lands_blank(
        src,
        b + primary.len() + store.len() + primary.len() + 166,
        r35,
        b + primary.len() + store.len() + primary.len() + 187,
        0,
    );
    step_list(
        src,
        b + primary.len() + 123,
        r32,
        b + primary.len() + store.len() + primary.len() + 154,
        11,
        r35,
        b + primary.len() + store.len() + primary.len() + 187,
    );
    let r36 = r32.push(Form::List(r35));
    lemma_lands_start(src, b + primary.len() + store.len() + primary.len() + 190);
    let r37 = Seq::<Form>::empty();
    lemma_blank_zero(src, b + primary.len() + store.len() + primary.len() + 190);
    word_err();
    step_symbol(
        src,
        b + primary.len() + store.len() + primary.len() + 190,
        r37,
        b + primary.len() + store.len() + primary.len() + 190,
        0,
        "err"@,
    );
    let r38 = r37.push(sym("err"@));
    word_duplicate();
    step_keyword(
        src,
        b + primary.len() + store.len() + primary.len() + 190,
        r38,
        b + primary.len() + store.len() + primary.len() + 193,
        1,
        "duplicate"@,
    );
    let r39 = r38.push(kw("duplicate"@));
    lemma_lands_start(src, b + primary.len() + store.len() + primary.len() + 206);
    let r40 = Seq::<Form>::empty();
    lemma_blank_zero(src, b + primary.len() + store.len() + primary.len() + 206);
    word_input();
    step_keyword(
        src,
        b + primary.len() + store.len() + primary.len() + 206,
        r40,
        b + primary.len() + store.len() + primary.len() + 206,
        0,
        "input"@,
    );
    let r41 = r40.push(kw("input"@));
    word_input();
    step_symbol(
        src,
        b + primary.len() + store.len() + primary.len() + 206,
        r41,
        b + primary.len() + store.len() + primary.len() + 212,
        1,
        "input"@,
    );
    let r42 = r41.push(sym("input"@));
    lemma_blank_zero(src, b + primary.len() + store.len() + primary.len() + 218);
    lemma_lands_blank(
        src,
        b + primary.len() + store.len() + primary.len() + 206,
        r42,
        b + primary.len() + store.len() + primary.len() + 218,
        0,
    );
    step_map(
        src,
        b + primary.len() + store.len() + primary.len() + 190,
        r39,
        b + primary.len() + store.len() + primary.len() + 204,
        1,
        r42,
        b + primary.len() + store.len() + primary.len() + 218,
    );
    let r43 = r39.push(plain_map(r42));
    lemma_blank_zero(src, b + primary.len() + store.len() + primary.len() + 219);
    lemma_lands_blank(
        src,
        b + primary.len() + store.len() + primary.len() + 190,
        r43,
        b + primary.len() + store.len() + primary.len() + 219,
        0,
    );
    step_list(
        src,
        b + primary.len() + 123,
        r36,
        b + primary.len() + store.len() + primary.len() + 188,
        1,
        r43,
        b + primary.len() + store.len() + primary.len() + 219,
    );
    let r44 = r36.push(Form::List(r43));
    lemma_blank_join(src, b + primary.len() + store.len() + primary.len() + 220, 1, 10);
    lemma_lands_start(src, b + primary.len() + store.len() + primary.len() + 232);
    let r45 = Seq::<Form>::empty();
    lemma_blank_zero(src, b + primary.len() + store.len() + primary.len() + 232);
    word_ok();
    step_symbol(
        src,
        b + primary.len() + store.len() + primary.len() + 232,
        r45,
        b + primary.len() + store.len() + primary.len() + 232,
        0,
        "ok"@,
    );
    let r46 = r45.push(sym("ok"@));
    word_entity();
    step_symbol(
        src,
        b + primary.len() + store.len() + primary.len() + 232,
        r46,
        b + primary.len() + store.len() + primary.len() + 234,
        1,
        "entity"@,
    );
    let r47 = r46.push(sym("entity"@));
    lemma_blank_zero(src, b + primary.len() + store.len() + primary.len() + 241);
    lemma_lands_blank(
        src,
        b + primary.len() + store.len() + primary.len() + 232,
        r47,
        b + primary.len() + store.len() + primary.len() + 241,
        0,
    );
    step_list(
        src,
        b + primary.len() + 123,
        r44,
        b + primary.len() + store.len() + primary.len() + 220,
        11,
        r47,
        b + primary.len() + store.len() + primary.len() + 241,
    );
    let r48 = r44.push(Form::List(r47));
    lemma_lands_start(src, b + primary.len() + store.len() + primary.len() + 256);
    let r49 = Seq::<Form>::empty();
    lemma_blank_zero(src, b + primary.len() + store.len() + primary.len() + 256);
    word_ok();
    step_symbol(
        src,
        b + primary.len() + store.len() + primary.len() + 256,
        r49,
        b + primary.len() + store.len() + primary.len() + 256,
        0,
        "ok"@,
    );
    let r50 = r49.push(sym("ok"@));
    word_entity();
    step_symbol(
        src,
        b + primary.len() + store.len() + primary.len() + 256,
        r50,
        b + primary.len() + store.len() + primary.len() + 258,
        1,
        "entity"@,
    );
    let r51 = r50.push(sym("entity"@));
    lemma_blank_zero(src, b + primary.len() + store.len() + primary.len() + 265);
    lemma_lands_blank(
        src,
        b + primary.len() + store.len() + primary.len() + 256,
        r51,
        b + primary.len() + store.len() + primary.len() + 265,
        0,
    );
    step_list(
        src,
        b + primary.len() + 123,
        r48,
        b + primary.len() + store.len() + primary.len() + 242,
        13,
        r51,
        b + primary.len() + store.len() + primary.len() + 265,
    );
    let r52 = r48.push(Form::List(r51));
    lemma_blank_zero(src, b + primary.len() + store.len() + primary.len() + 266);
    lemma_lands_blank(
        src,
        b + primary.len() + 123,
        r52,
        b + primary.len() + store.len() + primary.len() + 266,
        0,
    );
    step_list(
        src,
        b + primary.len() + 51,
        r21,
        b + primary.len() + 113,
        9,
        r52,
        b + primary.len() + store.len() + primary.len() + 266,
    );
    let r53 = r21.push(Form::List(r52));
    lemma_blank_zero(src, b + primary.len() + store.len() + primary.len() + 267);
    lemma_lands_blank(
        src,
        b + primary.len() + 51,
        r53,
        b + primary.len() + store.len() + primary.len() + 267,
        0,
    );
    step_list(
        src,
        b + 5,
        r10,
        b + primary.len() + 43,
        7,
        r53,
        b + primary.len() + store.len() + primary.len() + 267,
    );
    let r54 = r10.push(Form::List(r53));
    lemma_blank_zero(src, b + primary.len() + store.len() + primary.len() + 268);
    lemma_lands_blank(src, b + 5, r54, b + primary.len() + store.len() + primary.len() + 268, 0);
    step_list(src, p, a, b, 4, r54, b + primary.len() + store.len() + primary.len() + 268);
    let r55 = a.push(Form::List(r54));
    lemma_blank_zero(src, b + primary.len() + store.len() + primary.len() + 269);
}

/// `acc` followed by the text of the body of a writing function.
pub open spec fn write_body_plain_text(
    acc: Seq<char>,
    store: Seq<char>,
    primary: Seq<char>,
) -> Seq<char> {
    acc
        + "    (let [errors (validate-against "@
        + primary
        + " input)]"@
        + "\n"@
        + "      (if (non-empty? errors)"@
        + "\n"@
        + "        (err :validation-failed errors)"@
        + "\n"@
        + "        (match (insert! "@
        + store
        + " (build "@
        + primary
        + " input))"@
        + "\n"@
        + "          (err :unique-violation) (err :duplicate {:input input})"@
        + "\n"@
        + "          (ok entity)             (ok entity))))"@
}

/// Where the body of a writing function is written behind `acc`, `acc` is written before it.
pub proof fn write_body_plain_cut(
    src: Seq<char>,
    x: int,
    acc: Seq<char>,
    store: Seq<char>,
    primary: Seq<char>,
)
    requires
        holds(src, x, write_body_plain_text(acc, store, primary)),
    ensures
        holds(src, x, acc),
        x + (write_body_plain_text(acc, store, primary)).len()
            == x + acc.len() + primary.len() + store.len() + primary.len() + 269,
        !cont_at(src, x + acc.len()),
{
    let t1 = acc + "    (let [errors (validate-against "@;
    let t2 = t1 + primary;
    let t3 = t2 + " input)]"@;
    let t4 = t3 + "\n"@;
    let t5 = t4 + "      (if (non-empty? errors)"@;
    let t6 = t5 + "\n"@;
    let t7 = t6 + "        (err :validation-failed errors)"@;
    let t8 = t7 + "\n"@;
    let t9 = t8 + "        (match (insert! "@;
    let t10 = t9 + store;
    let t11 = t10 + " (build "@;
    let t12 = t11 + primary;
    let t13 = t12 + " input))"@;
    let t14 = t13 + "\n"@;
    let t15 = t14 + "          (err :unique-violation) (err :duplicate {:input input})"@;
    let t16 = t15 + "\n"@;
    lemma_holds_split(src, x, t16, "          (ok entity)             (ok entity))))"@);
    reveal_strlit("          (ok entity)             (ok entity))))");
    lemma_holds_split(src, x, t15, "\n"@);
    reveal_strlit("\n");
    lemma_holds_split(
        src,
        x,
        t14,
        "          (err :unique-violation) (err :duplicate {:input input})"@,
    );
    reveal_strlit("          (err :unique-violation) (err :duplicate {:input input})");
    lemma_holds_split(src, x, t13, "\n"@);
    reveal_strlit("\n");
    lemma_holds_split(src, x, t12, " input))"@);
    reveal_strlit(" input))");
    lemma_holds_split(src, x, t11, primary);
    lemma_holds_split(src, x, t10, " (build "@);
    reveal_strlit(" (build ");
    lemma_holds_split(src, x, t9, store);
    lemma_holds_split(src, x, t8, "        (match (insert! "@);
    reveal_strlit("        (match (insert! ");
    lemma_holds_split(src, x, t7, "\n"@);
    reveal_strlit("\n");
    lemma_holds_split(src, x, t6, "        (err :validation-failed errors)"@);
    reveal_strlit("        (err :validation-failed errors)");
    lemma_holds_split(src, x, t5, "\n"@);
    reveal_strlit("\n");
    lemma_holds_split(src, x, t4, "      (if (non-empty? errors)"@);
    reveal_strlit("      (if (non-empty? errors)");
    lemma_holds_split(src, x, t3, "\n"@);
    reveal_strlit("\n");
    lemma_holds_split(src, x, t2, " input)]"@);
    reveal_strlit(" input)]");
    lemma_holds_split(src, x, t1, primary);
    lemma_holds_split(src, x, acc, "    (let [errors (validate-against "@);
    reveal_strlit("    (let [errors (validate-against ");
    lemma_first_char(src, x + acc.len(), "    (let [errors (validate-against "@);
}

/// The text of the body of a writing function, written behind `acc`, holds its forms.
pub proof fn write_body_plain_at(
    src: Seq<char>,
    p: int,
    a: Seq<Form>,
    x: int,
    acc: Seq<char>,
    store: Seq<char>,
    primary: Seq<char>,
)
    requires
        holds(src, x, write_body_plain_text(acc, store, primary)),
        lands(src, p, a, x + acc.len()),
        symbol_text(store),
        symbol_text(primary),
    ensures
        lands(
            src,
            p,
            write_body_plain_run(a, store, primary),
            x + write_body_plain_text(acc, store, primary).len(),
        ),
{
    let t1 = acc + "    (let [errors (validate-against "@;
    let t2 = t1 + primary;
    let t3 = t2 + " input)]"@;
    let t4 = t3 + "\n"@;
    let t5 = t4 + "      (if (non-empty? errors)"@;
    let t6 = t5 + "\n"@;
    let t7 = t6 + "        (err :validation-failed errors)"@;
    let t8 = t7 + "\n"@;
    let t9 = t8 + "        (match (insert! "@;
    let t10 = t9 + store;
    let t11 = t10 + " (build "@;
    let t12 = t11 + primary;
    let t13 = t12 + " input))"@;
    let t14 = t13 + "\n"@;
    let t15 = t14 + "          (err :unique-violation) (err :duplicate {:input input})"@;
    let t16 = t15 + "\n"@;
    lemma_holds_split(src, x, t16, "          (ok entity)             (ok entity))))"@);
    reveal_strlit("          (ok entity)             (ok entity))))");
    lemma_holds_split(src, x, t15, "\n"@);
    reveal_strlit("\n");
    lemma_holds_split(
        src,
        x,
        t14,
        "          (err :unique-violation) (err :duplicate {:input input})"@,
    );
    reveal_strlit("          (err :unique-violation) (err :duplicate {:input input})");
    lemma_holds_split(src, x, t13, "\n"@);
    reveal_strlit("\n");
    lemma_holds_split(src, x, t12, " input))"@);
    reveal_strlit(" input))");
    lemma_holds_split(src, x, t11, primary);
    lemma_holds_split(src, x, t10, " (build "@);
    reveal_strlit(" (build ");
    lemma_holds_split(src, x, t9, store);
    lemma_holds_split(src, x, t8, "        (match (insert! "@);
    reveal_strlit("        (match (insert! ");
    lemma_holds_split(src, x, t7, "\n"@);
    reveal_strlit("\n");
    lemma_holds_split(src, x, t6, "        (err :validation-failed errors)"@);
    reveal_strlit("        (err :validation-failed errors)");
    lemma_holds_split(src, x, t5, "\n"@);
    reveal_strlit("\n");
    lemma_holds_split(src, x, t4, "      (if (non-empty? errors)"@);
    reveal_strlit("      (if (non-empty? errors)");
    lemma_holds_split(src, x, t3, "\n"@);
    reveal_strlit("\n");
    lemma_holds_split(src, x, t2, " input)]"@);
    reveal_strlit(" input)]");
    lemma_holds_split(src, x, t1, primary);
    lemma_holds_split(src, x, acc, "    (let [errors (validate-against "@);
    reveal_strlit("    (let [errors (validate-against ");
    lemma_write_body_plain(src, p, a, x + acc.len(), store, primary);
}

} // verus!
