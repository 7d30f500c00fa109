//! What importing is for: every piece of a document as a memory that leads back to it.
use vstd::prelude::*;

use crate::chunking::{chunks_of, paragraphs, sections, windows};
use crate::laws::chunking::{
    chunks_are_the_parts_with_text, every_line_lies_in_a_chunk, windows_are_spaced_evenly,
};
use crate::memories::{contents, imports, pieces, ImportPlan};
use crate::text::{blank, lines, opt_text, texts, trim};
use crate::tools::ImportDocumentParams;

verus! {

/// Asked for whole, a document is stored as one memory that holds all of it.
pub proof fn a_whole_document_is_one_memory(p: ImportDocumentParams, plan: ImportPlan)
    requires
        p.mode matches Some(m) && m@ == "whole"@,
        pieces(p) matches Ok(v) ==> imports(plan, p, v),
    ensures
        pieces(p) is Ok,
        plan.chunks@.len() == 1,
        plan.chunks@[0]@ == p.content@,
{
    let t = texts(plan.chunks@);
    assert(t.len() == plan.chunks@.len());
    assert(t =~= seq![p.content@]);
    assert(t[0] == plan.chunks@[0]@);
}

/// By default, and by heading, every line that is not blank is stored in some memory: in memory `r.0`,
/// between `r.1` and `r.2`.
pub proof fn an_import_by_heading_keeps_every_line(
    p: ImportDocumentParams,
    plan: ImportPlan,
    i: int,
) -> (r: (int, Seq<char>, Seq<char>))
    requires
        p.mode is None || p.mode->0@ == "chunk"@,
        p.chunk_strategy is None || p.chunk_strategy->0@ == "heading"@,
        pieces(p) matches Ok(v) ==> imports(plan, p, v),
        0 <= i < lines(p.content@).len(),
        !blank(lines(p.content@)[i]),
    ensures
        pieces(p) is Ok,
        0 <= r.0 < plan.chunks@.len(),
        plan.chunks@[r.0]@ == r.1 + trim(lines(p.content@)[i]) + r.2,
{
    lemma_modes();
    let chunks = chunks_of(sections(lines(p.content@)));
    let r = every_line_lies_in_a_chunk(p.content@, i);
    assert(texts(plan.chunks@) == contents(chunks));
    assert(texts(plan.chunks@)[r.0] == contents(chunks)[r.0]);
    assert(texts(plan.chunks@).len() == plan.chunks@.len());
    r
}

/// By paragraph, the memories are the pieces between blank lines that hold more than white space, trimmed
/// and in order: memory `i` holds piece `at[i]`.
pub proof fn an_import_by_paragraph_keeps_every_paragraph(
    p: ImportDocumentParams,
    plan: ImportPlan,
) -> (at: Seq<int>)
    requires
        p.mode is None || p.mode->0@ == "chunk"@,
        p.chunk_strategy matches Some(s) && s@ == "paragraph"@,
        pieces(p) matches Ok(v) ==> imports(plan, p, v),
    ensures
        pieces(p) is Ok,
        at.len() == plan.chunks@.len(),
        forall|i: int|
            0 <= i < at.len() ==> 0 <= #[trigger] at[i] < paragraphs(p.content@).len()
                && plan.chunks@[i]@ == trim(paragraphs(p.content@)[at[i]].text),
        forall|i: int, j: int| 0 <= i < j < at.len() ==> #[trigger] at[i] < #[trigger] at[j],
        forall|k: int|
            0 <= k < paragraphs(p.content@).len() && !blank(
                (#[trigger] paragraphs(p.content@)[k]).text,
            ) ==> at.contains(k),
{
    lemma_modes();
    let parts = paragraphs(p.content@);
    let at = chunks_are_the_parts_with_text(parts);
    let chunks = chunks_of(parts);
    assert(texts(plan.chunks@) == contents(chunks));
    assert(texts(plan.chunks@).len() == plan.chunks@.len());
    assert forall|i: int| 0 <= i < at.len() implies 0 <= #[trigger] at[i] < parts.len()
        && plan.chunks@[i]@ == trim(parts[at[i]].text) by {
        assert(texts(plan.chunks@)[i] == contents(chunks)[i]);
    }
    at
}

/// By size, the memories are windows of a thousand characters, nine hundred apart, so that neighbours share
/// a hundred: memory `i` holds window `at[i]`, trimmed, and no window that holds more than white space is
/// left out.
pub proof fn an_import_by_size_keeps_every_window(
    p: ImportDocumentParams,
    plan: ImportPlan,
) -> (at: Seq<int>)
    requires
        p.mode is None || p.mode->0@ == "chunk"@,
        p.chunk_strategy matches Some(s) && s@ == "fixed_size"@,
        pieces(p) matches Ok(v) ==> imports(plan, p, v),
    ensures
        pieces(p) is Ok,
        at.len() == plan.chunks@.len(),
        forall|i: int|
            0 <= i < at.len() ==> {
                let from = 900 * #[trigger] at[i];
                &&& 0 <= from < p.content@.len()
                &&& plan.chunks@[i]@ == trim(
                    p.content@.subrange(
                        from,
                        if from + 1000 < p.content@.len() {
                            from + 1000
                        } else {
                            p.content@.len() as int
                        },
                    ),
                )
            },
        forall|i: int, j: int| 0 <= i < j < at.len() ==> #[trigger] at[i] < #[trigger] at[j],
        forall|k: int|
            0 <= k < windows(p.content@, 1000, 900, 0).len() && !blank(
                (#[trigger] windows(p.content@, 1000, 900, 0)[k]).text,
            ) ==> at.contains(k),
{
    lemma_modes();
    let parts = windows(p.content@, 1000, 900, 0);
    let at = chunks_are_the_parts_with_text(parts);
    let chunks = chunks_of(parts);
    assert(texts(plan.chunks@) == contents(chunks));
    assert(texts(plan.chunks@).len() == plan.chunks@.len());
    assert forall|i: int| 0 <= i < at.len() implies {
        let from = 900 * #[trigger] at[i];
        &&& 0 <= from < p.content@.len()
        &&& plan.chunks@[i]@ == trim(
            p.content@.subrange(
                from,
                if from + 1000 < p.content@.len() {
                    from + 1000
                } else {
                    p.content@.len() as int
                },
            ),
        )
    } by {
        assert(texts(plan.chunks@)[i] == contents(chunks)[i]);
        assert(0 < p.content@.len());
        windows_are_spaced_evenly(p.content@, 1000, 100, 0, at[i]);
        assert(crate::chunking::stride(1000, 100) == 900);
        let step: int = if 1000int - 100int > 1 {
            1000int - 100int
        } else {
            1
        };
        assert(at[i] * step == 900 * at[i]) by (nonlinear_arith)
            requires
                step == 900,
        ;
    }
    at
}

/// Only the known modes and strategies are carried out.
pub proof fn an_unknown_way_to_import_is_refused(p: ImportDocumentParams)
    ensures
        p.mode matches Some(m) ==> (m@ != "whole"@ && m@ != "chunk"@ ==> pieces(p) is Err),
        p.mode is None ==> (p.chunk_strategy matches Some(s) ==> (s@ != "heading"@ && s@
            != "paragraph"@ && s@ != "fixed_size"@ ==> pieces(p) is Err)),
        p.mode is None && p.chunk_strategy is None ==> pieces(p) is Ok,
{
    lemma_modes();
}

/// Every memory of an import leads back to the document, which is kept whole; it carries the tags that were
/// given and one more for the batch, full confidence and twice the heat of a stored memory.
pub proof fn imported_memories_lead_back_to_the_document(
    p: ImportDocumentParams,
    plan: ImportPlan,
    parts: Seq<Seq<char>>,
    i: int,
)
    requires
        imports(plan, p, parts),
    ensures
        plan.document@ == p.content@,
        plan.edge_type@ == "extracted_from"@,
        plan.confidence == 100,
        plan.heat == 200,
        opt_text(plan.session_id) == opt_text(p.session_id),
        match p.tags {
            Some(v) => {
                &&& plan.tags@.len() == v@.len() + 1
                &&& 0 <= i < v@.len() ==> plan.tags@[i]@ == v@[i]@
            },
            None => plan.tags@.len() == 1,
        },
        plan.tags@.last()@ == "import_batch:"@ + plan.batch_id@,
{
    let t = texts(plan.tags@);
    assert(t.len() == plan.tags@.len());
    assert(t.last() == plan.tags@.last()@);
    if let Some(v) = p.tags {
        assert(texts(v@).len() == v@.len());
        if 0 <= i < v@.len() {
            assert(t[i] == texts(v@)[i]);
        }
    }
}

proof fn lemma_modes()
    ensures
        "whole"@ != "chunk"@,
        "heading"@ != "paragraph"@,
        "heading"@ != "fixed_size"@,
        "paragraph"@ != "fixed_size"@,
{
    reveal_strlit("whole");
    reveal_strlit("chunk");
    reveal_strlit("heading");
    reveal_strlit("paragraph");
    reveal_strlit("fixed_size");
    assert("whole"@[0] == 'w' && "chunk"@[0] == 'c');
    assert("heading"@.len() == 7 && "paragraph"@.len() == 9 && "fixed_size"@.len() == 10);
}

} // verus!
