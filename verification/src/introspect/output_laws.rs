//! Laws of the reports: what a reader takes back out of their texts.

use crate::introspect::output::{
    collections_human, collections_md, collections_xml, description_element, human_line,
    human_lines, md_section, md_sections, xml_element, xml_elements, status_human, status_md, status_xml, xml_char, xml_head, xml_text, xml_text_is_plain,
};
use crate::introspect::{CollectionInfo, CollectionListReport, StatusReport};
use crate::reading::{
    at_tag, behind, differs_at, element_number, field, row_reads_back, rows_text, rows_text_joined,
    rows_unbroken,
    split_at_stop, element_value, joined_lacks, labelled_value_reads_back,
    line_number, line_value, lines_text, number_is_plain, padded_number, regroup, regroup_three,
    skip_plain, skip_tag, trim_padded, unbroken,
};
use crate::text::{decimal_spec, trim_spec};
use vstd::prelude::*;

verus! {

proof fn blanks_before(pad: Seq<char>, text: Seq<char>)
    requires
        forall|i: int| 0 <= i < pad.len() ==> #[trigger] pad[i] == ' ',
    ensures
        trim_spec(pad + text) == trim_spec(text),
    decreases pad.len(),
{
    let s = pad + text;
    if pad.len() == 0 {
        assert(s =~= text);
    } else {
        let tail = pad.skip(1);
        assert forall|i: int| 0 <= i < tail.len() implies #[trigger] tail[i] == ' ' by {
            assert(tail[i] == pad[i + 1]);
        }
        blanks_before(tail, text);
        assert(s[0] == pad[0]);
        assert(s.skip(1) =~= tail + text);
    }
}

spec fn status_human_reads_back_lines(report: StatusReport) -> Seq<(Seq<char>, Seq<char>)> {
    seq![
        ("version:"@, seq![' ', ' ', ' ', ' ', ' ', ' ', ' ', ' ', ' '] + report.version@),
        ("embedding_model:"@, seq![' '] + report.embedding_model@),
        ("vector_dim:"@, seq![' ', ' ', ' ', ' ', ' ', ' '] + decimal_spec(report.vector_dim as nat)),
        ("collections:"@, seq![' ', ' ', ' ', ' ', ' '] + decimal_spec(report.collections as nat)),
        ("chunks:"@, seq![' ', ' ', ' ', ' ', ' ', ' ', ' ', ' ', ' ', ' '] + decimal_spec(report.chunks as nat)),
        ("sources:"@, seq![' ', ' ', ' ', ' ', ' ', ' ', ' ', ' ', ' '] + decimal_spec(report.sources as nat)),
    ]
}

proof fn status_human_reads_back_is_lines(report: StatusReport)
    ensures
        status_human(report) == lines_text(status_human_reads_back_lines(report)),
{
    let lines = status_human_reads_back_lines(report);
    let nl = seq!['\n'];
    let x0 = "version:         "@;
    let x1 = report.version@;
    let x2 = "\nembedding_model: "@;
    let x3 = report.embedding_model@;
    let x4 = "\nvector_dim:      "@;
    let x5 = decimal_spec(report.vector_dim as nat);
    let x6 = "\ncollections:     "@;
    let x7 = decimal_spec(report.collections as nat);
    let x8 = "\nchunks:          "@;
    let x9 = decimal_spec(report.chunks as nat);
    let x10 = "\nsources:         "@;
    let x11 = decimal_spec(report.sources as nat);
    let x12 = "\n"@;
    let s0 = x0;
    let s1 = s0 + x1;
    let s2 = s1 + x2;
    let s3 = s2 + x3;
    let s4 = s3 + x4;
    let s5 = s4 + x5;
    let s6 = s5 + x6;
    let s7 = s6 + x7;
    let s8 = s7 + x8;
    let s9 = s8 + x9;
    let s10 = s9 + x10;
    let s11 = s10 + x11;
    let s12 = s11 + x12;
    let r12 = x12;
    let r11 = x11 + r12;
    let r10 = x10 + r11;
    let r9 = x9 + r10;
    let r8 = x8 + r9;
    let r7 = x7 + r8;
    let r6 = x6 + r7;
    let r5 = x5 + r6;
    let r4 = x4 + r5;
    let r3 = x3 + r4;
    let r2 = x2 + r3;
    let r1 = x1 + r2;
    let r0 = x0 + r1;
    regroup_three(s10, x11, r12);
    regroup_three(s9, x10, r11);
    regroup_three(s8, x9, r10);
    regroup_three(s7, x8, r9);
    regroup_three(s6, x7, r8);
    regroup_three(s5, x6, r7);
    regroup_three(s4, x5, r6);
    regroup_three(s3, x4, r5);
    regroup_three(s2, x3, r4);
    regroup_three(s1, x2, r3);
    regroup_three(s0, x1, r2);
    assert(status_human(report) == r0);
    let t6 = Seq::<char>::empty();
    let v5 = x11;
    let t5 = "sources:"@ + (seq![' ', ' ', ' ', ' ', ' ', ' ', ' ', ' ', ' '] + v5) + nl + t6;
    let v4 = x9;
    let t4 = "chunks:"@ + (seq![' ', ' ', ' ', ' ', ' ', ' ', ' ', ' ', ' ', ' '] + v4) + nl + t5;
    let v3 = x7;
    let t3 = "collections:"@ + (seq![' ', ' ', ' ', ' ', ' '] + v3) + nl + t4;
    let v2 = x5;
    let t2 = "vector_dim:"@ + (seq![' ', ' ', ' ', ' ', ' ', ' '] + v2) + nl + t3;
    let v1 = x3;
    let t1 = "embedding_model:"@ + (seq![' '] + v1) + nl + t2;
    let v0 = x1;
    let t0 = "version:"@ + (seq![' ', ' ', ' ', ' ', ' ', ' ', ' ', ' ', ' '] + v0) + nl + t1;
    assert(x2 =~= (nl + ("embedding_model:"@ + seq![' ']))) by {
        reveal_strlit("\nembedding_model: ");
        reveal_strlit("embedding_model:");
    }
    assert(x4 =~= (nl + ("vector_dim:"@ + seq![' ', ' ', ' ', ' ', ' ', ' ']))) by {
        reveal_strlit("\nvector_dim:      ");
        reveal_strlit("vector_dim:");
    }
    assert(x6 =~= (nl + ("collections:"@ + seq![' ', ' ', ' ', ' ', ' ']))) by {
        reveal_strlit("\ncollections:     ");
        reveal_strlit("collections:");
    }
    assert(x8 =~= (nl + ("chunks:"@ + seq![' ', ' ', ' ', ' ', ' ', ' ', ' ', ' ', ' ', ' ']))) by {
        reveal_strlit("\nchunks:          ");
        reveal_strlit("chunks:");
    }
    assert(x10 =~= (nl + ("sources:"@ + seq![' ', ' ', ' ', ' ', ' ', ' ', ' ', ' ', ' ']))) by {
        reveal_strlit("\nsources:         ");
        reveal_strlit("sources:");
    }
    assert(x12 =~= (nl + t6)) by {
        reveal_strlit("\n");
    }
    assert(x0 =~= "version:"@ + seq![' ', ' ', ' ', ' ', ' ', ' ', ' ', ' ', ' ']) by {
        reveal_strlit("version:         ");
        reveal_strlit("version:");
    }
    assert(r12 == x12);
    regroup("sources:"@, seq![' ', ' ', ' ', ' ', ' ', ' ', ' ', ' ', ' '], v5, t6);
    assert(("sources:"@ + seq![' ', ' ', ' ', ' ', ' ', ' ', ' ', ' ', ' ']) + r11 == t5);
    regroup_three(nl, "sources:"@ + seq![' ', ' ', ' ', ' ', ' ', ' ', ' ', ' ', ' '], r11);
    assert(r10 == nl + t5);
    regroup("chunks:"@, seq![' ', ' ', ' ', ' ', ' ', ' ', ' ', ' ', ' ', ' '], v4, t5);
    assert(("chunks:"@ + seq![' ', ' ', ' ', ' ', ' ', ' ', ' ', ' ', ' ', ' ']) + r9 == t4);
    regroup_three(nl, "chunks:"@ + seq![' ', ' ', ' ', ' ', ' ', ' ', ' ', ' ', ' ', ' '], r9);
    assert(r8 == nl + t4);
    regroup("collections:"@, seq![' ', ' ', ' ', ' ', ' '], v3, t4);
    assert(("collections:"@ + seq![' ', ' ', ' ', ' ', ' ']) + r7 == t3);
    regroup_three(nl, "collections:"@ + seq![' ', ' ', ' ', ' ', ' '], r7);
    assert(r6 == nl + t3);
    regroup("vector_dim:"@, seq![' ', ' ', ' ', ' ', ' ', ' '], v2, t3);
    assert(("vector_dim:"@ + seq![' ', ' ', ' ', ' ', ' ', ' ']) + r5 == t2);
    regroup_three(nl, "vector_dim:"@ + seq![' ', ' ', ' ', ' ', ' ', ' '], r5);
    assert(r4 == nl + t2);
    regroup("embedding_model:"@, seq![' '], v1, t2);
    assert(("embedding_model:"@ + seq![' ']) + r3 == t1);
    regroup_three(nl, "embedding_model:"@ + seq![' '], r3);
    assert(r2 == nl + t1);
    regroup("version:"@, seq![' ', ' ', ' ', ' ', ' ', ' ', ' ', ' ', ' '], v0, t1);
    assert(r0 == t0);
    assert(lines_text(lines.skip(6)) =~= t6);
    assert(lines.skip(5).skip(1) =~= lines.skip(6));
    assert(lines.skip(5)[0] == lines[5]);
    assert(lines_text(lines.skip(5)) == t5);
    assert(lines.skip(4).skip(1) =~= lines.skip(5));
    assert(lines.skip(4)[0] == lines[4]);
    assert(lines_text(lines.skip(4)) == t4);
    assert(lines.skip(3).skip(1) =~= lines.skip(4));
    assert(lines.skip(3)[0] == lines[3]);
    assert(lines_text(lines.skip(3)) == t3);
    assert(lines.skip(2).skip(1) =~= lines.skip(3));
    assert(lines.skip(2)[0] == lines[2]);
    assert(lines_text(lines.skip(2)) == t2);
    assert(lines.skip(1).skip(1) =~= lines.skip(2));
    assert(lines.skip(1)[0] == lines[1]);
    assert(lines_text(lines.skip(1)) == t1);
    assert(lines.skip(0).skip(1) =~= lines.skip(1));
    assert(lines.skip(0)[0] == lines[0]);
    assert(lines_text(lines.skip(0)) == t0);
    assert(lines.skip(0) =~= lines);
}

proof fn status_human_reads_back_unbroken(report: StatusReport)
    requires
        !report.version@.contains('\n'),
        !report.embedding_model@.contains('\n'),
    ensures
        unbroken(status_human_reads_back_lines(report)),
{
    assert(!"version:"@.contains('\n')) by {
        reveal_strlit("version:");
    }
    assert(!seq![' ', ' ', ' ', ' ', ' ', ' ', ' ', ' ', ' '].contains('\n'));
    joined_lacks(seq![' ', ' ', ' ', ' ', ' ', ' ', ' ', ' ', ' '], report.version@, '\n');
    assert(!"embedding_model:"@.contains('\n')) by {
        reveal_strlit("embedding_model:");
    }
    assert(!seq![' '].contains('\n'));
    joined_lacks(seq![' '], report.embedding_model@, '\n');
    assert(!"vector_dim:"@.contains('\n')) by {
        reveal_strlit("vector_dim:");
    }
    assert(!seq![' ', ' ', ' ', ' ', ' ', ' '].contains('\n'));
    padded_number(seq![' ', ' ', ' ', ' ', ' ', ' '], report.vector_dim as nat);
    assert(!"collections:"@.contains('\n')) by {
        reveal_strlit("collections:");
    }
    assert(!seq![' ', ' ', ' ', ' ', ' '].contains('\n'));
    padded_number(seq![' ', ' ', ' ', ' ', ' '], report.collections as nat);
    assert(!"chunks:"@.contains('\n')) by {
        reveal_strlit("chunks:");
    }
    assert(!seq![' ', ' ', ' ', ' ', ' ', ' ', ' ', ' ', ' ', ' '].contains('\n'));
    padded_number(seq![' ', ' ', ' ', ' ', ' ', ' ', ' ', ' ', ' ', ' '], report.chunks as nat);
    assert(!"sources:"@.contains('\n')) by {
        reveal_strlit("sources:");
    }
    assert(!seq![' ', ' ', ' ', ' ', ' ', ' ', ' ', ' ', ' '].contains('\n'));
    padded_number(seq![' ', ' ', ' ', ' ', ' ', ' ', ' ', ' ', ' '], report.sources as nat);
}

proof fn status_human_reads_back_labels(report: StatusReport, k: int)
    requires
        0 <= k < 6,
    ensures
        forall|i: int|
            0 <= i < k ==> !status_human_reads_back_lines(report)[k].0.is_prefix_of(
                (#[trigger] status_human_reads_back_lines(report)[i]).0 + status_human_reads_back_lines(report)[i].1,
            ),
{
    let lines = status_human_reads_back_lines(report);
    reveal_strlit("chunks:");
    reveal_strlit("collections:");
    reveal_strlit("embedding_model:");
    reveal_strlit("sources:");
    reveal_strlit("vector_dim:");
    reveal_strlit("version:");
    if k == 0 {
    }
    if k == 1 {
        differs_at(lines[1].0, lines[0].0 + lines[0].1, 0);
    }
    if k == 2 {
        differs_at(lines[2].0, lines[0].0 + lines[0].1, 2);
        differs_at(lines[2].0, lines[1].0 + lines[1].1, 0);
    }
    if k == 3 {
        differs_at(lines[3].0, lines[0].0 + lines[0].1, 0);
        differs_at(lines[3].0, lines[1].0 + lines[1].1, 0);
        differs_at(lines[3].0, lines[2].0 + lines[2].1, 0);
    }
    if k == 4 {
        differs_at(lines[4].0, lines[0].0 + lines[0].1, 0);
        differs_at(lines[4].0, lines[1].0 + lines[1].1, 0);
        differs_at(lines[4].0, lines[2].0 + lines[2].1, 0);
        differs_at(lines[4].0, lines[3].0 + lines[3].1, 1);
    }
    if k == 5 {
        differs_at(lines[5].0, lines[0].0 + lines[0].1, 0);
        differs_at(lines[5].0, lines[1].0 + lines[1].1, 0);
        differs_at(lines[5].0, lines[2].0 + lines[2].1, 0);
        differs_at(lines[5].0, lines[3].0 + lines[3].1, 0);
        differs_at(lines[5].0, lines[4].0 + lines[4].1, 0);
    }
}

/// Every field of the plain report is shown under its own label: what stands
/// behind the label reads back as that field, whatever the others are.
pub proof fn status_human_reads_back(report: StatusReport)
    requires
        !report.version@.contains('\n'),
        !report.embedding_model@.contains('\n'),
    ensures
        line_value(status_human(report), "version:"@) == Some(trim_spec(report.version@)),
        line_value(status_human(report), "embedding_model:"@) == Some(trim_spec(report.embedding_model@)),
        line_number(status_human(report), "vector_dim:"@) == Some(report.vector_dim as int),
        line_number(status_human(report), "collections:"@) == Some(report.collections as int),
        line_number(status_human(report), "chunks:"@) == Some(report.chunks as int),
        line_number(status_human(report), "sources:"@) == Some(report.sources as int),
{
    let lines = status_human_reads_back_lines(report);
    status_human_reads_back_is_lines(report);
    status_human_reads_back_unbroken(report);
    status_human_reads_back_labels(report, 0);
    labelled_value_reads_back(lines, 0);
    blanks_before(seq![' ', ' ', ' ', ' ', ' ', ' ', ' ', ' ', ' '], report.version@);
    status_human_reads_back_labels(report, 1);
    labelled_value_reads_back(lines, 1);
    blanks_before(seq![' '], report.embedding_model@);
    status_human_reads_back_labels(report, 2);
    labelled_value_reads_back(lines, 2);
    padded_number(seq![' ', ' ', ' ', ' ', ' ', ' '], report.vector_dim as nat);
    status_human_reads_back_labels(report, 3);
    labelled_value_reads_back(lines, 3);
    padded_number(seq![' ', ' ', ' ', ' ', ' '], report.collections as nat);
    status_human_reads_back_labels(report, 4);
    labelled_value_reads_back(lines, 4);
    padded_number(seq![' ', ' ', ' ', ' ', ' ', ' ', ' ', ' ', ' ', ' '], report.chunks as nat);
    status_human_reads_back_labels(report, 5);
    labelled_value_reads_back(lines, 5);
    padded_number(seq![' ', ' ', ' ', ' ', ' ', ' ', ' ', ' ', ' '], report.sources as nat);
}

spec fn status_md_reads_back_lines(report: StatusReport) -> Seq<(Seq<char>, Seq<char>)> {
    seq![
        ("# Status"@, Seq::<char>::empty()),
        (Seq::<char>::empty(), Seq::<char>::empty()),
        ("- version:"@, seq![' '] + report.version@),
        ("- embedding_model:"@, seq![' '] + (seq!['`'] + report.embedding_model@ + seq!['`'])),
        ("- vector_dim:"@, seq![' '] + decimal_spec(report.vector_dim as nat)),
        ("- collections:"@, seq![' '] + decimal_spec(report.collections as nat)),
        ("- chunks:"@, seq![' '] + decimal_spec(report.chunks as nat)),
        ("- sources:"@, seq![' '] + decimal_spec(report.sources as nat)),
    ]
}

proof fn status_md_reads_back_is_lines(report: StatusReport)
    ensures
        status_md(report) == lines_text(status_md_reads_back_lines(report)),
{
    let lines = status_md_reads_back_lines(report);
    let nl = seq!['\n'];
    let x0 = "# Status\n\n- version: "@;
    let x1 = report.version@;
    let x2 = "\n- embedding_model: `"@;
    let x3 = report.embedding_model@;
    let x4 = "`\n- vector_dim: "@;
    let x5 = decimal_spec(report.vector_dim as nat);
    let x6 = "\n- collections: "@;
    let x7 = decimal_spec(report.collections as nat);
    let x8 = "\n- chunks: "@;
    let x9 = decimal_spec(report.chunks as nat);
    let x10 = "\n- sources: "@;
    let x11 = decimal_spec(report.sources as nat);
    let x12 = "\n"@;
    let s0 = x0;
    let s1 = s0 + x1;
    let s2 = s1 + x2;
    let s3 = s2 + x3;
    let s4 = s3 + x4;
    let s5 = s4 + x5;
    let s6 = s5 + x6;
    let s7 = s6 + x7;
    let s8 = s7 + x8;
    let s9 = s8 + x9;
    let s10 = s9 + x10;
    let s11 = s10 + x11;
    let s12 = s11 + x12;
    let r12 = x12;
    let r11 = x11 + r12;
    let r10 = x10 + r11;
    let r9 = x9 + r10;
    let r8 = x8 + r9;
    let r7 = x7 + r8;
    let r6 = x6 + r7;
    let r5 = x5 + r6;
    let r4 = x4 + r5;
    let r3 = x3 + r4;
    let r2 = x2 + r3;
    let r1 = x1 + r2;
    let r0 = x0 + r1;
    regroup_three(s10, x11, r12);
    regroup_three(s9, x10, r11);
    regroup_three(s8, x9, r10);
    regroup_three(s7, x8, r9);
    regroup_three(s6, x7, r8);
    regroup_three(s5, x6, r7);
    regroup_three(s4, x5, r6);
    regroup_three(s3, x4, r5);
    regroup_three(s2, x3, r4);
    regroup_three(s1, x2, r3);
    regroup_three(s0, x1, r2);
    assert(status_md(report) == r0);
    let t6 = Seq::<char>::empty();
    let v5 = x11;
    let t5 = "- sources:"@ + (seq![' '] + v5) + nl + t6;
    let v4 = x9;
    let t4 = "- chunks:"@ + (seq![' '] + v4) + nl + t5;
    let v3 = x7;
    let t3 = "- collections:"@ + (seq![' '] + v3) + nl + t4;
    let v2 = x5;
    let t2 = "- vector_dim:"@ + (seq![' '] + v2) + nl + t3;
    let v1 = (seq!['`'] + x3 + seq!['`']);
    let t1 = "- embedding_model:"@ + (seq![' '] + v1) + nl + t2;
    let v0 = x1;
    let t0 = "- version:"@ + (seq![' '] + v0) + nl + t1;
    assert(x2 =~= (nl + ("- embedding_model:"@ + seq![' '] + seq!['`']))) by {
        reveal_strlit("\n- embedding_model: `");
        reveal_strlit("- embedding_model:");
    }
    assert(x4 =~= seq!['`'] + (nl + ("- vector_dim:"@ + seq![' ']))) by {
        reveal_strlit("`\n- vector_dim: ");
        reveal_strlit("- vector_dim:");
    }
    assert(x6 =~= (nl + ("- collections:"@ + seq![' ']))) by {
        reveal_strlit("\n- collections: ");
        reveal_strlit("- collections:");
    }
    assert(x8 =~= (nl + ("- chunks:"@ + seq![' ']))) by {
        reveal_strlit("\n- chunks: ");
        reveal_strlit("- chunks:");
    }
    assert(x10 =~= (nl + ("- sources:"@ + seq![' ']))) by {
        reveal_strlit("\n- sources: ");
        reveal_strlit("- sources:");
    }
    assert(x12 =~= (nl + t6)) by {
        reveal_strlit("\n");
    }
    assert(x0 =~= "# Status"@ + nl + nl + ("- version:"@ + seq![' '])) by {
        reveal_strlit("# Status\n\n- version: ");
        reveal_strlit("# Status");
        reveal_strlit("- version:");
    }
    assert(r12 == x12);
    regroup("- sources:"@, seq![' '], v5, t6);
    assert(("- sources:"@ + seq![' ']) + r11 == t5);
    regroup_three(nl, "- sources:"@ + seq![' '], r11);
    assert(r10 == nl + t5);
    regroup("- chunks:"@, seq![' '], v4, t5);
    assert(("- chunks:"@ + seq![' ']) + r9 == t4);
    regroup_three(nl, "- chunks:"@ + seq![' '], r9);
    assert(r8 == nl + t4);
    regroup("- collections:"@, seq![' '], v3, t4);
    assert(("- collections:"@ + seq![' ']) + r7 == t3);
    regroup_three(nl, "- collections:"@ + seq![' '], r7);
    assert(r6 == nl + t3);
    regroup("- vector_dim:"@, seq![' '], v2, t3);
    assert(("- vector_dim:"@ + seq![' ']) + r5 == t2);
    assert(r4 =~= seq!['`'] + (nl + t2));
    assert(("- embedding_model:"@ + seq![' '] + seq!['`']) + r3 =~= t1);
    regroup_three(nl, "- embedding_model:"@ + seq![' '] + seq!['`'], r3);
    assert(r2 == nl + t1);
    regroup("- version:"@, seq![' '], v0, t1);
    assert(("- version:"@ + seq![' ']) + r1 == t0);
    regroup_three("# Status"@ + nl + nl, "- version:"@ + seq![' '], r1);
    let top = "# Status"@ + Seq::<char>::empty() + nl + (Seq::<char>::empty() + Seq::<char>::empty() + nl + t0);
    assert("# Status"@ + nl + nl + t0 =~= top);
    assert(lines_text(lines.skip(8)) =~= t6);
    assert(lines.skip(7).skip(1) =~= lines.skip(8));
    assert(lines.skip(7)[0] == lines[7]);
    assert(lines_text(lines.skip(7)) == t5);
    assert(lines.skip(6).skip(1) =~= lines.skip(7));
    assert(lines.skip(6)[0] == lines[6]);
    assert(lines_text(lines.skip(6)) == t4);
    assert(lines.skip(5).skip(1) =~= lines.skip(6));
    assert(lines.skip(5)[0] == lines[5]);
    assert(lines_text(lines.skip(5)) == t3);
    assert(lines.skip(4).skip(1) =~= lines.skip(5));
    assert(lines.skip(4)[0] == lines[4]);
    assert(lines_text(lines.skip(4)) == t2);
    assert(lines.skip(3).skip(1) =~= lines.skip(4));
    assert(lines.skip(3)[0] == lines[3]);
    assert(lines_text(lines.skip(3)) == t1);
    assert(lines.skip(2).skip(1) =~= lines.skip(3));
    assert(lines.skip(2)[0] == lines[2]);
    assert(lines_text(lines.skip(2)) == t0);
    assert(lines.skip(1).skip(1) =~= lines.skip(2));
    assert(lines.skip(1)[0] == lines[1]);
    assert(lines.skip(0).skip(1) =~= lines.skip(1));
    assert(lines.skip(0)[0] == lines[0]);
    assert(lines_text(lines.skip(1)) == Seq::<char>::empty() + Seq::<char>::empty() + nl + t0);
    assert(lines_text(lines.skip(0)) == top);
    assert(r0 == top);
    assert(lines.skip(0) =~= lines);
}

proof fn status_md_reads_back_unbroken(report: StatusReport)
    requires
        !report.version@.contains('\n'),
        !report.embedding_model@.contains('\n'),
    ensures
        unbroken(status_md_reads_back_lines(report)),
{
    assert(!"- version:"@.contains('\n')) by {
        reveal_strlit("- version:");
    }
    assert(!seq![' '].contains('\n'));
    joined_lacks(seq![' '], report.version@, '\n');
    assert(!"- embedding_model:"@.contains('\n')) by {
        reveal_strlit("- embedding_model:");
    }
    assert(!seq![' '].contains('\n'));
    assert(!seq!['`'].contains('\n'));
    joined_lacks(seq!['`'], report.embedding_model@, '\n');
    joined_lacks(seq!['`'] + report.embedding_model@, seq!['`'], '\n');
    joined_lacks(seq![' '], seq!['`'] + report.embedding_model@ + seq!['`'], '\n');
    assert(!"- vector_dim:"@.contains('\n')) by {
        reveal_strlit("- vector_dim:");
    }
    assert(!seq![' '].contains('\n'));
    padded_number(seq![' '], report.vector_dim as nat);
    assert(!"- collections:"@.contains('\n')) by {
        reveal_strlit("- collections:");
    }
    assert(!seq![' '].contains('\n'));
    padded_number(seq![' '], report.collections as nat);
    assert(!"- chunks:"@.contains('\n')) by {
        reveal_strlit("- chunks:");
    }
    assert(!seq![' '].contains('\n'));
    padded_number(seq![' '], report.chunks as nat);
    assert(!"- sources:"@.contains('\n')) by {
        reveal_strlit("- sources:");
    }
    assert(!seq![' '].contains('\n'));
    padded_number(seq![' '], report.sources as nat);
    assert(!"# Status"@.contains('\n')) by {
        reveal_strlit("# Status");
    }
    assert(!Seq::<char>::empty().contains('\n'));
}

proof fn status_md_reads_back_labels(report: StatusReport, k: int)
    requires
        2 <= k < 8,
    ensures
        forall|i: int|
            0 <= i < k ==> !status_md_reads_back_lines(report)[k].0.is_prefix_of(
                (#[trigger] status_md_reads_back_lines(report)[i]).0 + status_md_reads_back_lines(report)[i].1,
            ),
{
    let lines = status_md_reads_back_lines(report);
    reveal_strlit("# Status");
    reveal_strlit("- chunks:");
    reveal_strlit("- collections:");
    reveal_strlit("- embedding_model:");
    reveal_strlit("- sources:");
    reveal_strlit("- vector_dim:");
    reveal_strlit("- version:");
    if k == 2 {
        differs_at(lines[2].0, lines[0].0 + lines[0].1, 0);
        differs_at(lines[2].0, lines[1].0 + lines[1].1, 0);
    }
    if k == 3 {
        differs_at(lines[3].0, lines[0].0 + lines[0].1, 0);
        differs_at(lines[3].0, lines[1].0 + lines[1].1, 0);
        differs_at(lines[3].0, lines[2].0 + lines[2].1, 2);
    }
    if k == 4 {
        differs_at(lines[4].0, lines[0].0 + lines[0].1, 0);
        differs_at(lines[4].0, lines[1].0 + lines[1].1, 0);
        differs_at(lines[4].0, lines[2].0 + lines[2].1, 4);
        differs_at(lines[4].0, lines[3].0 + lines[3].1, 2);
    }
    if k == 5 {
        differs_at(lines[5].0, lines[0].0 + lines[0].1, 0);
        differs_at(lines[5].0, lines[1].0 + lines[1].1, 0);
        differs_at(lines[5].0, lines[2].0 + lines[2].1, 2);
        differs_at(lines[5].0, lines[3].0 + lines[3].1, 2);
        differs_at(lines[5].0, lines[4].0 + lines[4].1, 2);
    }
    if k == 6 {
        differs_at(lines[6].0, lines[0].0 + lines[0].1, 0);
        differs_at(lines[6].0, lines[1].0 + lines[1].1, 0);
        differs_at(lines[6].0, lines[2].0 + lines[2].1, 2);
        differs_at(lines[6].0, lines[3].0 + lines[3].1, 2);
        differs_at(lines[6].0, lines[4].0 + lines[4].1, 2);
        differs_at(lines[6].0, lines[5].0 + lines[5].1, 3);
    }
    if k == 7 {
        differs_at(lines[7].0, lines[0].0 + lines[0].1, 0);
        differs_at(lines[7].0, lines[1].0 + lines[1].1, 0);
        differs_at(lines[7].0, lines[2].0 + lines[2].1, 2);
        differs_at(lines[7].0, lines[3].0 + lines[3].1, 2);
        differs_at(lines[7].0, lines[4].0 + lines[4].1, 2);
        differs_at(lines[7].0, lines[5].0 + lines[5].1, 2);
        differs_at(lines[7].0, lines[6].0 + lines[6].1, 2);
    }
}

/// Every field of the Markdown report is shown under its own label.
pub proof fn status_md_reads_back(report: StatusReport)
    requires
        !report.version@.contains('\n'),
        !report.embedding_model@.contains('\n'),
    ensures
        line_value(status_md(report), "- version:"@) == Some(trim_spec(report.version@)),
        line_value(status_md(report), "- embedding_model:"@) == Some(
            seq!['`'] + report.embedding_model@ + seq!['`'],
        ),
        line_number(status_md(report), "- vector_dim:"@) == Some(report.vector_dim as int),
        line_number(status_md(report), "- collections:"@) == Some(report.collections as int),
        line_number(status_md(report), "- chunks:"@) == Some(report.chunks as int),
        line_number(status_md(report), "- sources:"@) == Some(report.sources as int),
{
    let lines = status_md_reads_back_lines(report);
    status_md_reads_back_is_lines(report);
    status_md_reads_back_unbroken(report);
    status_md_reads_back_labels(report, 2);
    labelled_value_reads_back(lines, 2);
    blanks_before(seq![' '], report.version@);
    status_md_reads_back_labels(report, 3);
    labelled_value_reads_back(lines, 3);
    trim_padded(seq![' '], seq!['`'] + report.embedding_model@ + seq!['`']);
    status_md_reads_back_labels(report, 4);
    labelled_value_reads_back(lines, 4);
    padded_number(seq![' '], report.vector_dim as nat);
    status_md_reads_back_labels(report, 5);
    labelled_value_reads_back(lines, 5);
    padded_number(seq![' '], report.collections as nat);
    status_md_reads_back_labels(report, 6);
    labelled_value_reads_back(lines, 6);
    padded_number(seq![' '], report.chunks as nat);
    status_md_reads_back_labels(report, 7);
    labelled_value_reads_back(lines, 7);
    padded_number(seq![' '], report.sources as nat);
}

/// A literal of two tags is passed by where neither is `mark`.
proof fn skip_two(
    both: Seq<char>,
    close: Seq<char>,
    open: Seq<char>,
    rest: Seq<char>,
    mark: Seq<char>,
    j: int,
    k: int,
)
    requires
        both == close + open,
        close.len() > 0,
        open.len() > 0,
        !close.skip(1).contains('<'),
        !open.skip(1).contains('<'),
        mark.len() > 0,
        mark[0] == '<',
        0 <= j < mark.len(),
        j < close.len(),
        mark[j] != close[j],
        0 <= k < mark.len(),
        k < open.len(),
        mark[k] != open[k],
    ensures
        element_value(both + rest, mark) == element_value(rest, mark),
{
    regroup_three(close, open, rest);
    skip_tag(close, open + rest, mark, j);
    skip_tag(open, rest, mark, k);
}

proof fn text_is_no_tag(s: Seq<char>)
    ensures
        !xml_text(s).contains('<'),
{
    xml_text_is_plain(s);
}

/// The XML report from value `k` on.
spec fn xml_tail_6(report: StatusReport) -> Seq<char> {
    Seq::empty()
}

spec fn xml_tail_5(report: StatusReport) -> Seq<char> {
    decimal_spec(report.sources as nat) + ("</sources>\n</status>\n"@ + xml_tail_6(report))
}

spec fn xml_tail_4(report: StatusReport) -> Seq<char> {
    decimal_spec(report.chunks as nat) + ("</chunks>\n  <sources>"@ + xml_tail_5(report))
}

spec fn xml_tail_3(report: StatusReport) -> Seq<char> {
    decimal_spec(report.collections as nat) + ("</collections>\n  <chunks>"@ + xml_tail_4(report))
}

spec fn xml_tail_2(report: StatusReport) -> Seq<char> {
    decimal_spec(report.vector_dim as nat) + ("</vector_dim>\n  <collections>"@ + xml_tail_3(report))
}

spec fn xml_tail_1(report: StatusReport) -> Seq<char> {
    xml_text(report.embedding_model@) + ("</embedding_model>\n  <vector_dim>"@ + xml_tail_2(report))
}

spec fn xml_tail_0(report: StatusReport) -> Seq<char> {
    xml_text(report.version@) + ("</version>\n  <embedding_model>"@ + xml_tail_1(report))
}

proof fn status_xml_by_tails(report: StatusReport)
    ensures
        status_xml(report) == xml_head() + ("<status>\n  <version>"@ + xml_tail_0(report)),
{
    let x0 = xml_head();
    let x1 = "<status>\n  <version>"@;
    let x2 = xml_text(report.version@);
    let x3 = "</version>\n  <embedding_model>"@;
    let x4 = xml_text(report.embedding_model@);
    let x5 = "</embedding_model>\n  <vector_dim>"@;
    let x6 = decimal_spec(report.vector_dim as nat);
    let x7 = "</vector_dim>\n  <collections>"@;
    let x8 = decimal_spec(report.collections as nat);
    let x9 = "</collections>\n  <chunks>"@;
    let x10 = decimal_spec(report.chunks as nat);
    let x11 = "</chunks>\n  <sources>"@;
    let x12 = decimal_spec(report.sources as nat);
    let x13 = "</sources>\n</status>\n"@;
    let s0 = x0;
    let s1 = s0 + x1;
    let s2 = s1 + x2;
    let s3 = s2 + x3;
    let s4 = s3 + x4;
    let s5 = s4 + x5;
    let s6 = s5 + x6;
    let s7 = s6 + x7;
    let s8 = s7 + x8;
    let s9 = s8 + x9;
    let s10 = s9 + x10;
    let s11 = s10 + x11;
    let s12 = s11 + x12;
    let s13 = s12 + x13;
    let r13 = x13 + xml_tail_6(report);
    assert(r13 =~= x13);
    let r12 = x12 + r13;
    let r11 = x11 + r12;
    let r10 = x10 + r11;
    let r9 = x9 + r10;
    let r8 = x8 + r9;
    let r7 = x7 + r8;
    let r6 = x6 + r7;
    let r5 = x5 + r6;
    let r4 = x4 + r5;
    let r3 = x3 + r4;
    let r2 = x2 + r3;
    let r1 = x1 + r2;
    let r0 = x0 + r1;
    regroup_three(s11, x12, r13);
    regroup_three(s10, x11, r12);
    regroup_three(s9, x10, r11);
    regroup_three(s8, x9, r10);
    regroup_three(s7, x8, r9);
    regroup_three(s6, x7, r8);
    regroup_three(s5, x6, r7);
    regroup_three(s4, x5, r6);
    regroup_three(s3, x4, r5);
    regroup_three(s2, x3, r4);
    regroup_three(s1, x2, r3);
    regroup_three(s0, x1, r2);
    assert(status_xml(report) == r0);
}

proof fn xml_version_reads_back(report: StatusReport)
    ensures
        element_value(status_xml(report), "<version>"@) == Some(xml_text(report.version@)),
{
    let mark = "<version>"@;
    status_xml_by_tails(report);
    assert(mark.len() == 9 && mark[0] == '<') by {
        reveal_strlit("<version>");
    }
    assert(xml_head().len() > 1 && xml_head()[1] == '?' && mark[1] != '?'
        && !xml_head().skip(1).contains('<')) by {
        reveal_strlit("<?xml version=\"1.0\" encoding=\"UTF-8\"?>\n");
        reveal_strlit("<version>");
    }
    skip_tag(xml_head(), "<status>\n  <version>"@ + xml_tail_0(report), mark, 1);
    assert("<status>\n  <version>"@ =~= "<status>\n  "@ + mark && !"<status>\n  "@.skip(1).contains('<') && "<status>\n  "@.len() > 1 && mark[1] != "<status>\n  "@[1]) by {
        reveal_strlit("<status>\n  <version>");
        reveal_strlit("<status>\n  ");
        reveal_strlit("<version>");
    }
    regroup_three("<status>\n  "@, mark, xml_tail_0(report));
    skip_tag("<status>\n  "@, mark + xml_tail_0(report), mark, 1);
    text_is_no_tag(report.version@);
    let rest = "</version>\n  <embedding_model>"@ + xml_tail_1(report);
    assert(rest.len() > 0 && rest[0] == '<') by {
        reveal_strlit("</version>\n  <embedding_model>");
        reveal_strlit("<version>");
    }
    at_tag(mark, xml_text(report.version@), rest);
}

proof fn xml_embedding_model_reads_back(report: StatusReport)
    ensures
        element_value(status_xml(report), "<embedding_model>"@) == Some(xml_text(report.embedding_model@)),
{
    let mark = "<embedding_model>"@;
    status_xml_by_tails(report);
    assert(mark.len() == 17 && mark[0] == '<') by {
        reveal_strlit("<embedding_model>");
    }
    assert(xml_head().len() > 1 && xml_head()[1] == '?' && mark[1] != '?'
        && !xml_head().skip(1).contains('<')) by {
        reveal_strlit("<?xml version=\"1.0\" encoding=\"UTF-8\"?>\n");
        reveal_strlit("<embedding_model>");
    }
    skip_tag(xml_head(), "<status>\n  <version>"@ + xml_tail_0(report), mark, 1);
    assert("<status>\n  <version>"@ =~= "<status>\n  "@ + "<version>"@ && !"<status>\n  "@.skip(1).contains('<') && !"<version>"@.skip(1).contains('<') && "<status>\n  "@.len() > 1 && "<version>"@.len() > 1 && mark[1] != "<status>\n  "@[1] && mark[1] != "<version>"@[1]) by {
        reveal_strlit("<status>\n  <version>");
        reveal_strlit("<status>\n  ");
        reveal_strlit("<version>");
        reveal_strlit("<embedding_model>");
    }
    skip_two("<status>\n  <version>"@, "<status>\n  "@, "<version>"@, xml_tail_0(report), mark, 1, 1);
    text_is_no_tag(report.version@);
    skip_plain(xml_text(report.version@), "</version>\n  <embedding_model>"@ + xml_tail_1(report), mark);
    assert("</version>\n  <embedding_model>"@ =~= "</version>\n  "@ + mark && !"</version>\n  "@.skip(1).contains('<') && "</version>\n  "@.len() > 1 && mark[1] != "</version>\n  "@[1]) by {
        reveal_strlit("</version>\n  <embedding_model>");
        reveal_strlit("</version>\n  ");
        reveal_strlit("<embedding_model>");
    }
    regroup_three("</version>\n  "@, mark, xml_tail_1(report));
    skip_tag("</version>\n  "@, mark + xml_tail_1(report), mark, 1);
    text_is_no_tag(report.embedding_model@);
    let rest = "</embedding_model>\n  <vector_dim>"@ + xml_tail_2(report);
    assert(rest.len() > 0 && rest[0] == '<') by {
        reveal_strlit("</embedding_model>\n  <vector_dim>");
        reveal_strlit("<embedding_model>");
    }
    at_tag(mark, xml_text(report.embedding_model@), rest);
}

proof fn xml_vector_dim_reads_back(report: StatusReport)
    ensures
        element_value(status_xml(report), "<vector_dim>"@) == Some(decimal_spec(report.vector_dim as nat)),
{
    let mark = "<vector_dim>"@;
    status_xml_by_tails(report);
    assert(mark.len() == 12 && mark[0] == '<') by {
        reveal_strlit("<vector_dim>");
    }
    assert(xml_head().len() > 1 && xml_head()[1] == '?' && mark[1] != '?'
        && !xml_head().skip(1).contains('<')) by {
        reveal_strlit("<?xml version=\"1.0\" encoding=\"UTF-8\"?>\n");
        reveal_strlit("<vector_dim>");
    }
    skip_tag(xml_head(), "<status>\n  <version>"@ + xml_tail_0(report), mark, 1);
    assert("<status>\n  <version>"@ =~= "<status>\n  "@ + "<version>"@ && !"<status>\n  "@.skip(1).contains('<') && !"<version>"@.skip(1).contains('<') && "<status>\n  "@.len() > 1 && "<version>"@.len() > 3 && mark[1] != "<status>\n  "@[1] && mark[3] != "<version>"@[3]) by {
        reveal_strlit("<status>\n  <version>");
        reveal_strlit("<status>\n  ");
        reveal_strlit("<version>");
        reveal_strlit("<vector_dim>");
    }
    skip_two("<status>\n  <version>"@, "<status>\n  "@, "<version>"@, xml_tail_0(report), mark, 1, 3);
    text_is_no_tag(report.version@);
    skip_plain(xml_text(report.version@), "</version>\n  <embedding_model>"@ + xml_tail_1(report), mark);
    assert("</version>\n  <embedding_model>"@ =~= "</version>\n  "@ + "<embedding_model>"@ && !"</version>\n  "@.skip(1).contains('<') && !"<embedding_model>"@.skip(1).contains('<') && "</version>\n  "@.len() > 1 && "<embedding_model>"@.len() > 1 && mark[1] != "</version>\n  "@[1] && mark[1] != "<embedding_model>"@[1]) by {
        reveal_strlit("</version>\n  <embedding_model>");
        reveal_strlit("</version>\n  ");
        reveal_strlit("<embedding_model>");
        reveal_strlit("<vector_dim>");
    }
    skip_two("</version>\n  <embedding_model>"@, "</version>\n  "@, "<embedding_model>"@, xml_tail_1(report), mark, 1, 1);
    text_is_no_tag(report.embedding_model@);
    skip_plain(xml_text(report.embedding_model@), "</embedding_model>\n  <vector_dim>"@ + xml_tail_2(report), mark);
    assert("</embedding_model>\n  <vector_dim>"@ =~= "</embedding_model>\n  "@ + mark && !"</embedding_model>\n  "@.skip(1).contains('<') && "</embedding_model>\n  "@.len() > 1 && mark[1] != "</embedding_model>\n  "@[1]) by {
        reveal_strlit("</embedding_model>\n  <vector_dim>");
        reveal_strlit("</embedding_model>\n  ");
        reveal_strlit("<vector_dim>");
    }
    regroup_three("</embedding_model>\n  "@, mark, xml_tail_2(report));
    skip_tag("</embedding_model>\n  "@, mark + xml_tail_2(report), mark, 1);
    number_is_plain(report.vector_dim as nat);
    let rest = "</vector_dim>\n  <collections>"@ + xml_tail_3(report);
    assert(rest.len() > 0 && rest[0] == '<') by {
        reveal_strlit("</vector_dim>\n  <collections>");
        reveal_strlit("<vector_dim>");
    }
    at_tag(mark, decimal_spec(report.vector_dim as nat), rest);
}

proof fn xml_collections_reads_back(report: StatusReport)
    ensures
        element_value(status_xml(report), "<collections>"@) == Some(decimal_spec(report.collections as nat)),
{
    let mark = "<collections>"@;
    status_xml_by_tails(report);
    assert(mark.len() == 13 && mark[0] == '<') by {
        reveal_strlit("<collections>");
    }
    assert(xml_head().len() > 1 && xml_head()[1] == '?' && mark[1] != '?'
        && !xml_head().skip(1).contains('<')) by {
        reveal_strlit("<?xml version=\"1.0\" encoding=\"UTF-8\"?>\n");
        reveal_strlit("<collections>");
    }
    skip_tag(xml_head(), "<status>\n  <version>"@ + xml_tail_0(report), mark, 1);
    assert("<status>\n  <version>"@ =~= "<status>\n  "@ + "<version>"@ && !"<status>\n  "@.skip(1).contains('<') && !"<version>"@.skip(1).contains('<') && "<status>\n  "@.len() > 1 && "<version>"@.len() > 1 && mark[1] != "<status>\n  "@[1] && mark[1] != "<version>"@[1]) by {
        reveal_strlit("<status>\n  <version>");
        reveal_strlit("<status>\n  ");
        reveal_strlit("<version>");
        reveal_strlit("<collections>");
    }
    skip_two("<status>\n  <version>"@, "<status>\n  "@, "<version>"@, xml_tail_0(report), mark, 1, 1);
    text_is_no_tag(report.version@);
    skip_plain(xml_text(report.version@), "</version>\n  <embedding_model>"@ + xml_tail_1(report), mark);
    assert("</version>\n  <embedding_model>"@ =~= "</version>\n  "@ + "<embedding_model>"@ && !"</version>\n  "@.skip(1).contains('<') && !"<embedding_model>"@.skip(1).contains('<') && "</version>\n  "@.len() > 1 && "<embedding_model>"@.len() > 1 && mark[1] != "</version>\n  "@[1] && mark[1] != "<embedding_model>"@[1]) by {
        reveal_strlit("</version>\n  <embedding_model>");
        reveal_strlit("</version>\n  ");
        reveal_strlit("<embedding_model>");
        reveal_strlit("<collections>");
    }
    skip_two("</version>\n  <embedding_model>"@, "</version>\n  "@, "<embedding_model>"@, xml_tail_1(report), mark, 1, 1);
    text_is_no_tag(report.embedding_model@);
    skip_plain(xml_text(report.embedding_model@), "</embedding_model>\n  <vector_dim>"@ + xml_tail_2(report), mark);
    assert("</embedding_model>\n  <vector_dim>"@ =~= "</embedding_model>\n  "@ + "<vector_dim>"@ && !"</embedding_model>\n  "@.skip(1).contains('<') && !"<vector_dim>"@.skip(1).contains('<') && "</embedding_model>\n  "@.len() > 1 && "<vector_dim>"@.len() > 1 && mark[1] != "</embedding_model>\n  "@[1] && mark[1] != "<vector_dim>"@[1]) by {
        reveal_strlit("</embedding_model>\n  <vector_dim>");
        reveal_strlit("</embedding_model>\n  ");
        reveal_strlit("<vector_dim>");
        reveal_strlit("<collections>");
    }
    skip_two("</embedding_model>\n  <vector_dim>"@, "</embedding_model>\n  "@, "<vector_dim>"@, xml_tail_2(report), mark, 1, 1);
    number_is_plain(report.vector_dim as nat);
    skip_plain(decimal_spec(report.vector_dim as nat), "</vector_dim>\n  <collections>"@ + xml_tail_3(report), mark);
    assert("</vector_dim>\n  <collections>"@ =~= "</vector_dim>\n  "@ + mark && !"</vector_dim>\n  "@.skip(1).contains('<') && "</vector_dim>\n  "@.len() > 1 && mark[1] != "</vector_dim>\n  "@[1]) by {
        reveal_strlit("</vector_dim>\n  <collections>");
        reveal_strlit("</vector_dim>\n  ");
        reveal_strlit("<collections>");
    }
    regroup_three("</vector_dim>\n  "@, mark, xml_tail_3(report));
    skip_tag("</vector_dim>\n  "@, mark + xml_tail_3(report), mark, 1);
    number_is_plain(report.collections as nat);
    let rest = "</collections>\n  <chunks>"@ + xml_tail_4(report);
    assert(rest.len() > 0 && rest[0] == '<') by {
        reveal_strlit("</collections>\n  <chunks>");
        reveal_strlit("<collections>");
    }
    at_tag(mark, decimal_spec(report.collections as nat), rest);
}

proof fn xml_chunks_reads_back(report: StatusReport)
    ensures
        element_value(status_xml(report), "<chunks>"@) == Some(decimal_spec(report.chunks as nat)),
{
    let mark = "<chunks>"@;
    status_xml_by_tails(report);
    assert(mark.len() == 8 && mark[0] == '<') by {
        reveal_strlit("<chunks>");
    }
    assert(xml_head().len() > 1 && xml_head()[1] == '?' && mark[1] != '?'
        && !xml_head().skip(1).contains('<')) by {
        reveal_strlit("<?xml version=\"1.0\" encoding=\"UTF-8\"?>\n");
        reveal_strlit("<chunks>");
    }
    skip_tag(xml_head(), "<status>\n  <version>"@ + xml_tail_0(report), mark, 1);
    assert("<status>\n  <version>"@ =~= "<status>\n  "@ + "<version>"@ && !"<status>\n  "@.skip(1).contains('<') && !"<version>"@.skip(1).contains('<') && "<status>\n  "@.len() > 1 && "<version>"@.len() > 1 && mark[1] != "<status>\n  "@[1] && mark[1] != "<version>"@[1]) by {
        reveal_strlit("<status>\n  <version>");
        reveal_strlit("<status>\n  ");
        reveal_strlit("<version>");
        reveal_strlit("<chunks>");
    }
    skip_two("<status>\n  <version>"@, "<status>\n  "@, "<version>"@, xml_tail_0(report), mark, 1, 1);
    text_is_no_tag(report.version@);
    skip_plain(xml_text(report.version@), "</version>\n  <embedding_model>"@ + xml_tail_1(report), mark);
    assert("</version>\n  <embedding_model>"@ =~= "</version>\n  "@ + "<embedding_model>"@ && !"</version>\n  "@.skip(1).contains('<') && !"<embedding_model>"@.skip(1).contains('<') && "</version>\n  "@.len() > 1 && "<embedding_model>"@.len() > 1 && mark[1] != "</version>\n  "@[1] && mark[1] != "<embedding_model>"@[1]) by {
        reveal_strlit("</version>\n  <embedding_model>");
        reveal_strlit("</version>\n  ");
        reveal_strlit("<embedding_model>");
        reveal_strlit("<chunks>");
    }
    skip_two("</version>\n  <embedding_model>"@, "</version>\n  "@, "<embedding_model>"@, xml_tail_1(report), mark, 1, 1);
    text_is_no_tag(report.embedding_model@);
    skip_plain(xml_text(report.embedding_model@), "</embedding_model>\n  <vector_dim>"@ + xml_tail_2(report), mark);
    assert("</embedding_model>\n  <vector_dim>"@ =~= "</embedding_model>\n  "@ + "<vector_dim>"@ && !"</embedding_model>\n  "@.skip(1).contains('<') && !"<vector_dim>"@.skip(1).contains('<') && "</embedding_model>\n  "@.len() > 1 && "<vector_dim>"@.len() > 1 && mark[1] != "</embedding_model>\n  "@[1] && mark[1] != "<vector_dim>"@[1]) by {
        reveal_strlit("</embedding_model>\n  <vector_dim>");
        reveal_strlit("</embedding_model>\n  ");
        reveal_strlit("<vector_dim>");
        reveal_strlit("<chunks>");
    }
    skip_two("</embedding_model>\n  <vector_dim>"@, "</embedding_model>\n  "@, "<vector_dim>"@, xml_tail_2(report), mark, 1, 1);
    number_is_plain(report.vector_dim as nat);
    skip_plain(decimal_spec(report.vector_dim as nat), "</vector_dim>\n  <collections>"@ + xml_tail_3(report), mark);
    assert("</vector_dim>\n  <collections>"@ =~= "</vector_dim>\n  "@ + "<collections>"@ && !"</vector_dim>\n  "@.skip(1).contains('<') && !"<collections>"@.skip(1).contains('<') && "</vector_dim>\n  "@.len() > 1 && "<collections>"@.len() > 2 && mark[1] != "</vector_dim>\n  "@[1] && mark[2] != "<collections>"@[2]) by {
        reveal_strlit("</vector_dim>\n  <collections>");
        reveal_strlit("</vector_dim>\n  ");
        reveal_strlit("<collections>");
        reveal_strlit("<chunks>");
    }
    skip_two("</vector_dim>\n  <collections>"@, "</vector_dim>\n  "@, "<collections>"@, xml_tail_3(report), mark, 1, 2);
    number_is_plain(report.collections as nat);
    skip_plain(decimal_spec(report.collections as nat), "</collections>\n  <chunks>"@ + xml_tail_4(report), mark);
    assert("</collections>\n  <chunks>"@ =~= "</collections>\n  "@ + mark && !"</collections>\n  "@.skip(1).contains('<') && "</collections>\n  "@.len() > 1 && mark[1] != "</collections>\n  "@[1]) by {
        reveal_strlit("</collections>\n  <chunks>");
        reveal_strlit("</collections>\n  ");
        reveal_strlit("<chunks>");
    }
    regroup_three("</collections>\n  "@, mark, xml_tail_4(report));
    skip_tag("</collections>\n  "@, mark + xml_tail_4(report), mark, 1);
    number_is_plain(report.chunks as nat);
    let rest = "</chunks>\n  <sources>"@ + xml_tail_5(report);
    assert(rest.len() > 0 && rest[0] == '<') by {
        reveal_strlit("</chunks>\n  <sources>");
        reveal_strlit("<chunks>");
    }
    at_tag(mark, decimal_spec(report.chunks as nat), rest);
}

proof fn xml_sources_reads_back(report: StatusReport)
    ensures
        element_value(status_xml(report), "<sources>"@) == Some(decimal_spec(report.sources as nat)),
{
    let mark = "<sources>"@;
    status_xml_by_tails(report);
    assert(mark.len() == 9 && mark[0] == '<') by {
        reveal_strlit("<sources>");
    }
    assert(xml_head().len() > 1 && xml_head()[1] == '?' && mark[1] != '?'
        && !xml_head().skip(1).contains('<')) by {
        reveal_strlit("<?xml version=\"1.0\" encoding=\"UTF-8\"?>\n");
        reveal_strlit("<sources>");
    }
    skip_tag(xml_head(), "<status>\n  <version>"@ + xml_tail_0(report), mark, 1);
    assert("<status>\n  <version>"@ =~= "<status>\n  "@ + "<version>"@ && !"<status>\n  "@.skip(1).contains('<') && !"<version>"@.skip(1).contains('<') && "<status>\n  "@.len() > 2 && "<version>"@.len() > 1 && mark[2] != "<status>\n  "@[2] && mark[1] != "<version>"@[1]) by {
        reveal_strlit("<status>\n  <version>");
        reveal_strlit("<status>\n  ");
        reveal_strlit("<version>");
        reveal_strlit("<sources>");
    }
    skip_two("<status>\n  <version>"@, "<status>\n  "@, "<version>"@, xml_tail_0(report), mark, 2, 1);
    text_is_no_tag(report.version@);
    skip_plain(xml_text(report.version@), "</version>\n  <embedding_model>"@ + xml_tail_1(report), mark);
    assert("</version>\n  <embedding_model>"@ =~= "</version>\n  "@ + "<embedding_model>"@ && !"</version>\n  "@.skip(1).contains('<') && !"<embedding_model>"@.skip(1).contains('<') && "</version>\n  "@.len() > 1 && "<embedding_model>"@.len() > 1 && mark[1] != "</version>\n  "@[1] && mark[1] != "<embedding_model>"@[1]) by {
        reveal_strlit("</version>\n  <embedding_model>");
        reveal_strlit("</version>\n  ");
        reveal_strlit("<embedding_model>");
        reveal_strlit("<sources>");
    }
    skip_two("</version>\n  <embedding_model>"@, "</version>\n  "@, "<embedding_model>"@, xml_tail_1(report), mark, 1, 1);
    text_is_no_tag(report.embedding_model@);
    skip_plain(xml_text(report.embedding_model@), "</embedding_model>\n  <vector_dim>"@ + xml_tail_2(report), mark);
    assert("</embedding_model>\n  <vector_dim>"@ =~= "</embedding_model>\n  "@ + "<vector_dim>"@ && !"</embedding_model>\n  "@.skip(1).contains('<') && !"<vector_dim>"@.skip(1).contains('<') && "</embedding_model>\n  "@.len() > 1 && "<vector_dim>"@.len() > 1 && mark[1] != "</embedding_model>\n  "@[1] && mark[1] != "<vector_dim>"@[1]) by {
        reveal_strlit("</embedding_model>\n  <vector_dim>");
        reveal_strlit("</embedding_model>\n  ");
        reveal_strlit("<vector_dim>");
        reveal_strlit("<sources>");
    }
    skip_two("</embedding_model>\n  <vector_dim>"@, "</embedding_model>\n  "@, "<vector_dim>"@, xml_tail_2(report), mark, 1, 1);
    number_is_plain(report.vector_dim as nat);
    skip_plain(decimal_spec(report.vector_dim as nat), "</vector_dim>\n  <collections>"@ + xml_tail_3(report), mark);
    assert("</vector_dim>\n  <collections>"@ =~= "</vector_dim>\n  "@ + "<collections>"@ && !"</vector_dim>\n  "@.skip(1).contains('<') && !"<collections>"@.skip(1).contains('<') && "</vector_dim>\n  "@.len() > 1 && "<collections>"@.len() > 1 && mark[1] != "</vector_dim>\n  "@[1] && mark[1] != "<collections>"@[1]) by {
        reveal_strlit("</vector_dim>\n  <collections>");
        reveal_strlit("</vector_dim>\n  ");
        reveal_strlit("<collections>");
        reveal_strlit("<sources>");
    }
    skip_two("</vector_dim>\n  <collections>"@, "</vector_dim>\n  "@, "<collections>"@, xml_tail_3(report), mark, 1, 1);
    number_is_plain(report.collections as nat);
    skip_plain(decimal_spec(report.collections as nat), "</collections>\n  <chunks>"@ + xml_tail_4(report), mark);
    assert("</collections>\n  <chunks>"@ =~= "</collections>\n  "@ + "<chunks>"@ && !"</collections>\n  "@.skip(1).contains('<') && !"<chunks>"@.skip(1).contains('<') && "</collections>\n  "@.len() > 1 && "<chunks>"@.len() > 1 && mark[1] != "</collections>\n  "@[1] && mark[1] != "<chunks>"@[1]) by {
        reveal_strlit("</collections>\n  <chunks>");
        reveal_strlit("</collections>\n  ");
        reveal_strlit("<chunks>");
        reveal_strlit("<sources>");
    }
    skip_two("</collections>\n  <chunks>"@, "</collections>\n  "@, "<chunks>"@, xml_tail_4(report), mark, 1, 1);
    number_is_plain(report.chunks as nat);
    skip_plain(decimal_spec(report.chunks as nat), "</chunks>\n  <sources>"@ + xml_tail_5(report), mark);
    assert("</chunks>\n  <sources>"@ =~= "</chunks>\n  "@ + mark && !"</chunks>\n  "@.skip(1).contains('<') && "</chunks>\n  "@.len() > 1 && mark[1] != "</chunks>\n  "@[1]) by {
        reveal_strlit("</chunks>\n  <sources>");
        reveal_strlit("</chunks>\n  ");
        reveal_strlit("<sources>");
    }
    regroup_three("</chunks>\n  "@, mark, xml_tail_5(report));
    skip_tag("</chunks>\n  "@, mark + xml_tail_5(report), mark, 1);
    number_is_plain(report.sources as nat);
    let rest = "</sources>\n</status>\n"@ + xml_tail_6(report);
    assert(rest.len() > 0 && rest[0] == '<') by {
        reveal_strlit("</sources>\n</status>\n");
        reveal_strlit("<sources>");
    }
    at_tag(mark, decimal_spec(report.sources as nat), rest);
}

/// Every field of the XML report stands in its own element, whatever the others
/// are: a number reads back as it is, a text as its escaped form.
pub proof fn status_xml_reads_back(report: StatusReport)
    ensures
        element_value(status_xml(report), "<version>"@) == Some(xml_text(report.version@)),
        element_value(status_xml(report), "<embedding_model>"@) == Some(xml_text(report.embedding_model@)),
        element_number(status_xml(report), "<vector_dim>"@) == Some(report.vector_dim as int),
        element_number(status_xml(report), "<collections>"@) == Some(report.collections as int),
        element_number(status_xml(report), "<chunks>"@) == Some(report.chunks as int),
        element_number(status_xml(report), "<sources>"@) == Some(report.sources as int),
{
    xml_version_reads_back(report);
    xml_embedding_model_reads_back(report);
    xml_vector_dim_reads_back(report);
    number_is_plain(report.vector_dim as nat);
    xml_collections_reads_back(report);
    number_is_plain(report.collections as nat);
    xml_chunks_reads_back(report);
    number_is_plain(report.chunks as nat);
    xml_sources_reads_back(report);
    number_is_plain(report.sources as nat);
}

/// What a reader makes of XML content: the five entities as the characters that
/// they stand for, everything else as it is; none for an `&` that opens none of
/// them.
pub open spec fn xml_read(text: Seq<char>) -> Option<Seq<char>>
    decreases text.len(),
{
    if text.len() == 0 {
        Some(Seq::empty())
    } else if text[0] != '&' {
        match xml_read(text.skip(1)) {
            Some(rest) => Some(seq![text[0]] + rest),
            None => None,
        }
    } else if text.len() >= 5 && text.take(5) == seq!['&', 'a', 'm', 'p', ';'] {
        match xml_read(text.skip(5)) {
            Some(rest) => Some(seq!['&'] + rest),
            None => None,
        }
    } else if text.len() >= 4 && text.take(4) == seq!['&', 'l', 't', ';'] {
        match xml_read(text.skip(4)) {
            Some(rest) => Some(seq!['<'] + rest),
            None => None,
        }
    } else if text.len() >= 4 && text.take(4) == seq!['&', 'g', 't', ';'] {
        match xml_read(text.skip(4)) {
            Some(rest) => Some(seq!['>'] + rest),
            None => None,
        }
    } else if text.len() >= 6 && text.take(6) == seq!['&', 'q', 'u', 'o', 't', ';'] {
        match xml_read(text.skip(6)) {
            Some(rest) => Some(seq!['"'] + rest),
            None => None,
        }
    } else if text.len() >= 6 && text.take(6) == seq!['&', 'a', 'p', 'o', 's', ';'] {
        match xml_read(text.skip(6)) {
            Some(rest) => Some(seq!['\''] + rest),
            None => None,
        }
    } else {
        None
    }
}

proof fn xml_text_from_front(s: Seq<char>)
    requires
        s.len() > 0,
    ensures
        xml_text(s) == xml_char(s[0]) + xml_text(s.skip(1)),
    decreases s.len(),
{
    if s.len() == 1 {
        assert(s.drop_last() =~= Seq::empty());
        assert(s.skip(1) =~= Seq::empty());
        assert(xml_text(s) =~= xml_char(s[0]) + xml_text(s.skip(1)));
    } else {
        xml_text_from_front(s.drop_last());
        assert(s.drop_last().skip(1) =~= s.skip(1).drop_last());
        assert(xml_text(s) =~= xml_char(s[0]) + xml_text(s.skip(1)));
    }
}

proof fn xml_char_reads_back(c: char, rest: Seq<char>)
    requires
        xml_read(rest) is Some,
    ensures
        xml_read(xml_char(c) + rest) == Some(seq![c] + xml_read(rest)->Some_0),
{
    reveal_strlit("&amp;");
    reveal_strlit("&lt;");
    reveal_strlit("&gt;");
    reveal_strlit("&quot;");
    reveal_strlit("&apos;");
    let text = xml_char(c) + rest;
    let n = xml_char(c).len() as int;
    assert(text.skip(n) =~= rest);
    if c == '&' {
        assert(text.take(5) =~= seq!['&', 'a', 'm', 'p', ';']);
    } else if c == '<' {
        assert(text[1] == 'l');
        assert(text.take(4) =~= seq!['&', 'l', 't', ';']);
        assert(text.len() >= 5 ==> text.take(5)[1] == 'l');
    } else if c == '>' {
        assert(text[1] == 'g');
        assert(text.take(4) =~= seq!['&', 'g', 't', ';']);
        assert(text.len() >= 5 ==> text.take(5)[1] == 'g');
        assert(text.take(4)[1] == 'g');
    } else if c == '"' {
        assert(text.take(6) =~= seq!['&', 'q', 'u', 'o', 't', ';']);
        assert(text.take(5)[1] == 'q' && text.take(4)[1] == 'q');
    } else if c == '\'' {
        assert(text.take(6) =~= seq!['&', 'a', 'p', 'o', 's', ';']);
        assert(text.take(5)[2] == 'p' && text.take(4)[1] == 'a' && text.take(6)[1] == 'a');
    }
}

/// Escaped text reads back as the text itself, whatever it holds.
pub proof fn xml_text_reads_back(s: Seq<char>)
    ensures
        xml_read(xml_text(s)) == Some(s),
    decreases s.len(),
{
    if s.len() == 0 {
        assert(s =~= Seq::empty());
    } else {
        xml_text_reads_back(s.skip(1));
        xml_text_from_front(s);
        xml_char_reads_back(s[0], xml_text(s.skip(1)));
        assert(seq![s[0]] + s.skip(1) =~= s);
    }
}

/// What is shown for a description.
pub open spec fn told(description: Option<String>) -> Seq<char> {
    match description {
        Some(text) => text@,
        None => "(none)"@,
    }
}

/// The texts of a collection hold neither a tab nor a line break.
pub open spec fn is_plain_info(info: CollectionInfo) -> bool {
    &&& !info.name@.contains('\n') && !info.name@.contains('\t')
    &&& !info.path@.contains('\n') && !info.path@.contains('\t')
    &&& !told(info.description).contains('\n') && !told(info.description).contains('\t')
}

proof fn lacks_all(parts: Seq<Seq<char>>, c: char)
    requires
        forall|i: int| 0 <= i < parts.len() ==> !(#[trigger] parts[i]).contains(c),
    ensures
        !parts.flatten().contains(c),
    decreases parts.len(),
{
    if parts.len() > 0 {
        let rest = parts.drop_first();
        assert forall|i: int| 0 <= i < rest.len() implies !(#[trigger] rest[i]).contains(c) by {
            assert(rest[i] == parts[i + 1]);
        }
        lacks_all(rest, c);
        joined_lacks(parts[0], rest.flatten(), c);
    }
}

/// The line of a collection, without its end.
spec fn human_row(info: CollectionInfo) -> Seq<char> {
    info.name@ + (seq!['\t'] + (info.path@ + (seq!['\t'] + (decimal_spec(
        info.document_count as nat,
    ) + " docs"@ + (seq!['\t'] + told(info.description))))))
}

proof fn human_row_reads_back(info: CollectionInfo)
    requires
        is_plain_info(info),
    ensures
        human_line(info) == human_row(info) + seq!['\n'],
        !human_row(info).contains('\n'),
        field(human_row(info), '\t', 0) == info.name@,
        field(human_row(info), '\t', 1) == info.path@,
        field(human_row(info), '\t', 2) == decimal_spec(info.document_count as nat) + " docs"@,
        field(human_row(info), '\t', 3) == told(info.description),
{
    let count = decimal_spec(info.document_count as nat);
    let shown = told(info.description);
    let tab = seq!['\t'];
    let docs = count + " docs"@;
    assert(!" docs"@.contains('\n') && !" docs"@.contains('\t')) by {
        reveal_strlit(" docs");
    }
    assert(!tab.contains('\n'));
    number_is_plain(info.document_count as nat);
    joined_lacks(count, " docs"@, '\n');
    joined_lacks(count, " docs"@, '\t');
    let r3 = tab + shown;
    let r2 = tab + (docs + r3);
    let r1 = tab + (info.path@ + r2);
    joined_lacks(tab, shown, '\n');
    joined_lacks(docs, r3, '\n');
    joined_lacks(tab, docs + r3, '\n');
    joined_lacks(info.path@, r2, '\n');
    joined_lacks(tab, info.path@ + r2, '\n');
    joined_lacks(info.name@, r1, '\n');
    assert("\t"@ =~= tab && "\n"@ =~= seq!['\n'] && " docs\t"@ =~= " docs"@ + tab) by {
        reveal_strlit("\t");
        reveal_strlit("\n");
        reveal_strlit(" docs");
        reveal_strlit(" docs\t");
    }
    assert(human_line(info) =~= human_row(info) + seq!['\n']);
    split_at_stop(info.name@, '\t', info.path@ + r2);
    assert(human_row(info) =~= info.name@ + tab + (info.path@ + r2));
    split_at_stop(info.path@, '\t', docs + r3);
    assert(info.path@ + r2 =~= info.path@ + tab + (docs + r3));
    split_at_stop(docs, '\t', shown);
    assert(docs + r3 =~= docs + tab + shown);
    split_at_stop(shown, '\t', Seq::empty());
    assert(behind(human_row(info), '\t') == info.path@ + r2);
    assert(behind(info.path@ + r2, '\t') == docs + r3);
    assert(behind(docs + r3, '\t') == shown);
    assert(field(info.path@ + r2, '\t', 0) == info.path@);
    assert(field(docs + r3, '\t', 0) == docs);
    assert(field(shown, '\t', 0) == shown);
    assert(field(docs + r3, '\t', 1) == field(shown, '\t', 0));
    assert(field(info.path@ + r2, '\t', 2) == field(docs + r3, '\t', 1));
    assert(field(info.path@ + r2, '\t', 1) == field(docs + r3, '\t', 0));
}

proof fn human_lines_are_rows(infos: Seq<CollectionInfo>)
    requires
        forall|i: int| 0 <= i < infos.len() ==> is_plain_info(#[trigger] infos[i]),
    ensures
        human_lines(infos) == rows_text(infos.map_values(|i: CollectionInfo| human_row(i))),
    decreases infos.len(),
{
    let row = |i: CollectionInfo| human_row(i);
    let rows = infos.map_values(row);
    if infos.len() > 0 {
        let short = infos.drop_last();
        let last = infos.last();
        assert forall|i: int| 0 <= i < short.len() implies is_plain_info(#[trigger] short[i]) by {
            assert(short[i] == infos[i]);
        }
        human_lines_are_rows(short);
        assert(is_plain_info(infos[infos.len() - 1]));
        human_row_reads_back(last);
        let one = seq![human_row(last)];
        assert(rows =~= short.map_values(row) + one);
        rows_text_joined(short.map_values(row), one);
        assert(one.skip(1) =~= Seq::empty());
        assert(rows_text(one.skip(1)) =~= Seq::empty());
        assert(rows_text(one) =~= human_row(last) + seq!['\n']);
    } else {
        assert(rows =~= Seq::empty());
    }
}

/// The plain list has a line for every collection, in order, that reads back as
/// its name, path, number of documents and description, and then a line with
/// their number.
pub proof fn collections_human_reads_back(report: CollectionListReport)
    requires
        forall|i: int|
            0 <= i < report.collections@.len() ==> is_plain_info(#[trigger] report.collections@[i]),
    ensures
        forall|i: int|
            0 <= i < report.collections@.len() ==> {
                let info = #[trigger] report.collections@[i];
                let line = field(collections_human(report), '\n', i as nat);
                &&& field(line, '\t', 0) == info.name@
                &&& field(line, '\t', 1) == info.path@
                &&& field(line, '\t', 2) == decimal_spec(info.document_count as nat) + " docs"@
                &&& field(line, '\t', 3) == told(info.description)
            },
        field(collections_human(report), '\n', report.collections@.len()) == decimal_spec(
            report.collections@.len(),
        ) + " collections"@,
{
    let infos = report.collections@;
    let row = |i: CollectionInfo| human_row(i);
    let count = decimal_spec(infos.len()) + " collections"@;
    let rows = infos.map_values(row) + seq![count];
    assert(!" collections"@.contains('\n') && " collections\n"@ =~= " collections"@ + seq!['\n'])
        by {
        reveal_strlit(" collections");
        reveal_strlit(" collections\n");
    }
    number_is_plain(infos.len());
    joined_lacks(decimal_spec(infos.len()), " collections"@, '\n');
    assert forall|i: int| 0 <= i < rows.len() implies !(#[trigger] rows[i]).contains('\n') by {
        if i < infos.len() {
            assert(is_plain_info(infos[i]));
            human_row_reads_back(infos[i]);
        }
    }
    human_lines_are_rows(infos);
    rows_text_joined(infos.map_values(row), seq![count]);
    assert(seq![count].skip(1) =~= Seq::empty());
    assert(rows_text(seq![count].skip(1)) =~= Seq::empty());
    assert(rows_text(seq![count]) =~= count + seq!['\n']);
    assert(collections_human(report) =~= rows_text(rows));
    assert forall|i: int| 0 <= i < infos.len() implies {
        let info = #[trigger] infos[i];
        let line = field(collections_human(report), '\n', i as nat);
        &&& field(line, '\t', 0) == info.name@
        &&& field(line, '\t', 1) == info.path@
        &&& field(line, '\t', 2) == decimal_spec(info.document_count as nat) + " docs"@
        &&& field(line, '\t', 3) == told(info.description)
    } by {
        row_reads_back(rows, i as nat);
        assert(is_plain_info(infos[i]));
        human_row_reads_back(infos[i]);
    }
    row_reads_back(rows, infos.len());
}

/// Lists of six lines, one after the other.
spec fn sixes(parts: Seq<Seq<Seq<char>>>) -> Seq<Seq<char>>
    decreases parts.len(),
{
    if parts.len() == 0 {
        Seq::empty()
    } else {
        sixes(parts.drop_last()) + parts.last()
    }
}

proof fn six_by_six(parts: Seq<Seq<Seq<char>>>, i: int, k: int)
    requires
        forall|j: int| 0 <= j < parts.len() ==> (#[trigger] parts[j]).len() == 6,
        0 <= i < parts.len(),
        0 <= k < 6,
    ensures
        sixes(parts).len() == 6 * parts.len(),
        sixes(parts)[6 * i + k] == parts[i][k],
    decreases parts.len(),
{
    let short = parts.drop_last();
    assert(parts[parts.len() - 1].len() == 6);
    assert forall|j: int| 0 <= j < short.len() implies (#[trigger] short[j]).len() == 6 by {
        assert(short[j] == parts[j]);
    }
    if short.len() == 0 {
        assert(sixes(short) =~= Seq::empty());
    } else if i < short.len() {
        six_by_six(short, i, k);
        assert(short[i] == parts[i]);
    } else {
        six_by_six(short, 0, 0);
    }
}

/// The lines of a collection in the Markdown list.
spec fn md_rows(info: CollectionInfo) -> Seq<Seq<char>> {
    seq![
        Seq::<char>::empty(),
        "## "@ + info.name@,
        Seq::<char>::empty(),
        "- path: `"@ + info.path@ + "`"@,
        "- document_count: "@ + decimal_spec(info.document_count as nat),
        "- description: "@ + told(info.description),
    ]
}

proof fn md_section_is_rows(info: CollectionInfo)
    ensures
        md_section(info) == rows_text(md_rows(info)),
{
    let nl = seq!['\n'];
    let x0 = "\n## "@;
    let x1 = info.name@;
    let x2 = "\n\n- path: `"@;
    let x3 = info.path@;
    let x4 = "`\n- document_count: "@;
    let x5 = decimal_spec(info.document_count as nat);
    let x6 = "\n- description: "@;
    let x7 = told(info.description);
    let x8 = "\n"@;
    let s0 = x0;
    let s1 = s0 + x1;
    let s2 = s1 + x2;
    let s3 = s2 + x3;
    let s4 = s3 + x4;
    let s5 = s4 + x5;
    let s6 = s5 + x6;
    let s7 = s6 + x7;
    let s8 = s7 + x8;
    let r9 = Seq::<char>::empty();
    let r8 = x8 + r9;
    assert(r8 =~= x8);
    let r7 = x7 + r8;
    let r6 = x6 + r7;
    let r5 = x5 + r6;
    let r4 = x4 + r5;
    let r3 = x3 + r4;
    let r2 = x2 + r3;
    let r1 = x1 + r2;
    let r0 = x0 + r1;
    regroup_three(s6, x7, r8);
    regroup_three(s5, x6, r7);
    regroup_three(s4, x5, r6);
    regroup_three(s3, x4, r5);
    regroup_three(s2, x3, r4);
    regroup_three(s1, x2, r3);
    regroup_three(s0, x1, r2);
    assert(md_section(info) == r0);
    let rows = md_rows(info);
    assert(x0 =~= nl + ("## "@)) by {
        reveal_strlit("\n## ");
        reveal_strlit("## ");
    }
    assert(x2 =~= nl + (nl + ("- path: `"@))) by {
        reveal_strlit("\n\n- path: `");
        reveal_strlit("- path: `");
    }
    assert(x4 =~= "`"@ + (nl + ("- document_count: "@))) by {
        reveal_strlit("`\n- document_count: ");
        reveal_strlit("`");
        reveal_strlit("- document_count: ");
    }
    assert(x6 =~= nl + ("- description: "@)) by {
        reveal_strlit("\n- description: ");
        reveal_strlit("- description: ");
    }
    assert(x8 =~= nl) by {
        reveal_strlit("\n");
    }
    regroup_three(nl, "## "@, r1);
    regroup_three(nl, nl + ("- path: `"@), r3);
    regroup_three(nl, "- path: `"@, r3);
    regroup_three("`"@, nl + ("- document_count: "@), r5);
    regroup_three(nl, "- document_count: "@, r5);
    regroup_three(nl, "- description: "@, r7);
    let left15 = Seq::<char>::empty();
    let left14 = nl + left15;
    let left13 = x7 + left14;
    let left12 = "- description: "@ + left13;
    let left11 = nl + left12;
    let left10 = x5 + left11;
    let left9 = "- document_count: "@ + left10;
    let left8 = nl + left9;
    let left7 = "`"@ + left8;
    let left6 = x3 + left7;
    let left5 = "- path: `"@ + left6;
    let left4 = nl + left5;
    let left3 = nl + left4;
    let left2 = x1 + left3;
    let left1 = "## "@ + left2;
    let left0 = nl + left1;
    assert(r8 == left14);
    assert(r7 == left13);
    assert(r6 == left11);
    assert(r5 == left10);
    assert(r4 == left7);
    assert(r3 == left6);
    assert(r2 == left3);
    assert(r1 == left2);
    assert(r0 == left0);
    assert(rows_text(rows.skip(6)) =~= Seq::<char>::empty());
    assert(rows.skip(5).skip(1) =~= rows.skip(6));
    assert(rows.skip(5)[0] == rows[5]);
    regroup_three("- description: "@ + x7, nl, left15);
    regroup_three("- description: "@, x7, left14);
    assert(rows_text(rows.skip(5)) == left12);
    assert(rows.skip(4).skip(1) =~= rows.skip(5));
    assert(rows.skip(4)[0] == rows[4]);
    regroup_three("- document_count: "@ + x5, nl, left12);
    regroup_three("- document_count: "@, x5, left11);
    assert(rows_text(rows.skip(4)) == left9);
    assert(rows.skip(3).skip(1) =~= rows.skip(4));
    assert(rows.skip(3)[0] == rows[3]);
    regroup_three("- path: `"@ + x3 + "`"@, nl, left9);
    regroup_three("- path: `"@ + x3, "`"@, left8);
    regroup_three("- path: `"@, x3, left7);
    assert(rows_text(rows.skip(3)) == left5);
    assert(rows.skip(2).skip(1) =~= rows.skip(3));
    assert(rows.skip(2)[0] == rows[2]);
    assert(Seq::<char>::empty() + nl + left5 =~= left4);
    assert(rows_text(rows.skip(2)) == left4);
    assert(rows.skip(1).skip(1) =~= rows.skip(2));
    assert(rows.skip(1)[0] == rows[1]);
    regroup_three("## "@ + x1, nl, left4);
    regroup_three("## "@, x1, left3);
    assert(rows_text(rows.skip(1)) == left1);
    assert(rows.skip(0).skip(1) =~= rows.skip(1));
    assert(rows.skip(0)[0] == rows[0]);
    assert(Seq::<char>::empty() + nl + left1 =~= left0);
    assert(rows_text(rows.skip(0)) == left0);
    assert(rows.skip(0) =~= rows);
}

/// The lines of a collection in the XML list.
spec fn xml_rows(info: CollectionInfo) -> Seq<Seq<char>> {
    seq![
        "  <collection>"@,
        "    <name>"@ + xml_text(info.name@) + "</name>"@,
        "    <path>"@ + xml_text(info.path@) + "</path>"@,
        description_row(info.description),
        "    <document_count>"@ + decimal_spec(info.document_count as nat) + "</document_count>"@,
        "  </collection>"@,
    ]
}

/// The line of a description in the XML list.
pub open spec fn description_row(description: Option<String>) -> Seq<char> {
    match description {
        Some(text) => "    <description>"@ + xml_text(text@) + "</description>"@,
        None => "    <description/>"@,
    }
}

proof fn description_element_is_a_row(info: CollectionInfo)
    ensures
        description_element(info) == description_row(info.description) + seq!['\n'],
{
    match info.description {
        Some(text) => {
            assert("</description>\n"@ =~= "</description>"@ + seq!['\n']) by {
                reveal_strlit("</description>\n");
                reveal_strlit("</description>");
            }
            assert(description_element(info) =~= description_row(info.description) + seq!['\n']);
        },
        None => {
            assert("    <description/>\n"@ =~= "    <description/>"@ + seq!['\n']) by {
                reveal_strlit("    <description/>\n");
                reveal_strlit("    <description/>");
            }
        },
    }
}

proof fn xml_element_is_rows(info: CollectionInfo)
    ensures
        xml_element(info) == rows_text(xml_rows(info)),
{
    description_element_is_a_row(info);
    let row = description_row(info.description);
    let head = "  <collection>\n    <name>"@ + xml_text(info.name@) + "</name>\n    <path>"@ + xml_text(
        info.path@,
    ) + "</path>\n"@;
    regroup_three(head, row, seq!['\n']);
    assert("\n    <document_count>"@ =~= seq!['\n'] + "    <document_count>"@) by {
        reveal_strlit("\n    <document_count>");
        reveal_strlit("    <document_count>");
    }
    regroup_three(head + row, seq!['\n'], "    <document_count>"@);
    let nl = seq!['\n'];
    let x0 = "  <collection>\n    <name>"@;
    let x1 = xml_text(info.name@);
    let x2 = "</name>\n    <path>"@;
    let x3 = xml_text(info.path@);
    let x4 = "</path>\n"@;
    let x5 = description_row(info.description);
    let x6 = "\n    <document_count>"@;
    let x7 = decimal_spec(info.document_count as nat);
    let x8 = "</document_count>\n  </collection>\n"@;
    let s0 = x0;
    let s1 = s0 + x1;
    let s2 = s1 + x2;
    let s3 = s2 + x3;
    let s4 = s3 + x4;
    let s5 = s4 + x5;
    let s6 = s5 + x6;
    let s7 = s6 + x7;
    let s8 = s7 + x8;
    let r9 = Seq::<char>::empty();
    let r8 = x8 + r9;
    assert(r8 =~= x8);
    let r7 = x7 + r8;
    let r6 = x6 + r7;
    let r5 = x5 + r6;
    let r4 = x4 + r5;
    let r3 = x3 + r4;
    let r2 = x2 + r3;
    let r1 = x1 + r2;
    let r0 = x0 + r1;
    regroup_three(s6, x7, r8);
    regroup_three(s5, x6, r7);
    regroup_three(s4, x5, r6);
    regroup_three(s3, x4, r5);
    regroup_three(s2, x3, r4);
    regroup_three(s1, x2, r3);
    regroup_three(s0, x1, r2);
    assert(xml_element(info) == r0);
    let rows = xml_rows(info);
    assert(x0 =~= "  <collection>"@ + (nl + ("    <name>"@))) by {
        reveal_strlit("  <collection>\n    <name>");
        reveal_strlit("  <collection>");
        reveal_strlit("    <name>");
    }
    assert(x2 =~= "</name>"@ + (nl + ("    <path>"@))) by {
        reveal_strlit("</name>\n    <path>");
        reveal_strlit("</name>");
        reveal_strlit("    <path>");
    }
    assert(x4 =~= "</path>"@ + (nl)) by {
        reveal_strlit("</path>\n");
        reveal_strlit("</path>");
    }
    assert(x6 =~= nl + ("    <document_count>"@)) by {
        reveal_strlit("\n    <document_count>");
        reveal_strlit("    <document_count>");
    }
    assert(x8 =~= "</document_count>"@ + (nl + ("  </collection>"@ + (nl)))) by {
        reveal_strlit("</document_count>\n  </collection>\n");
        reveal_strlit("</document_count>");
        reveal_strlit("  </collection>");
    }
    regroup_three("  <collection>"@, nl + ("    <name>"@), r1);
    regroup_three(nl, "    <name>"@, r1);
    regroup_three("</name>"@, nl + ("    <path>"@), r3);
    regroup_three(nl, "    <path>"@, r3);
    regroup_three("</path>"@, nl, r5);
    regroup_three(nl, "    <document_count>"@, r7);
    regroup_three("</document_count>"@, nl + ("  </collection>"@ + (nl)), r9);
    regroup_three(nl, "  </collection>"@ + (nl), r9);
    regroup_three("  </collection>"@, nl, r9);
    let left18 = Seq::<char>::empty();
    let left17 = nl + left18;
    let left16 = "  </collection>"@ + left17;
    let left15 = nl + left16;
    let left14 = "</document_count>"@ + left15;
    let left13 = x7 + left14;
    let left12 = "    <document_count>"@ + left13;
    let left11 = nl + left12;
    let left10 = x5 + left11;
    let left9 = nl + left10;
    let left8 = "</path>"@ + left9;
    let left7 = x3 + left8;
    let left6 = "    <path>"@ + left7;
    let left5 = nl + left6;
    let left4 = "</name>"@ + left5;
    let left3 = x1 + left4;
    let left2 = "    <name>"@ + left3;
    let left1 = nl + left2;
    let left0 = "  <collection>"@ + left1;
    assert(r8 == left14);
    assert(r7 == left13);
    assert(r6 == left11);
    assert(r5 == left10);
    assert(r4 == left8);
    assert(r3 == left7);
    assert(r2 == left4);
    assert(r1 == left3);
    assert(r0 == left0);
    assert(rows_text(rows.skip(6)) =~= Seq::<char>::empty());
    assert(rows.skip(5).skip(1) =~= rows.skip(6));
    assert(rows.skip(5)[0] == rows[5]);
    regroup_three("  </collection>"@, nl, left18);
    assert(rows_text(rows.skip(5)) == left16);
    assert(rows.skip(4).skip(1) =~= rows.skip(5));
    assert(rows.skip(4)[0] == rows[4]);
    regroup_three("    <document_count>"@ + x7 + "</document_count>"@, nl, left16);
    regroup_three("    <document_count>"@ + x7, "</document_count>"@, left15);
    regroup_three("    <document_count>"@, x7, left14);
    assert(rows_text(rows.skip(4)) == left12);
    assert(rows.skip(3).skip(1) =~= rows.skip(4));
    assert(rows.skip(3)[0] == rows[3]);
    regroup_three(x5, nl, left12);
    assert(rows_text(rows.skip(3)) == left10);
    assert(rows.skip(2).skip(1) =~= rows.skip(3));
    assert(rows.skip(2)[0] == rows[2]);
    regroup_three("    <path>"@ + x3 + "</path>"@, nl, left10);
    regroup_three("    <path>"@ + x3, "</path>"@, left9);
    regroup_three("    <path>"@, x3, left8);
    assert(rows_text(rows.skip(2)) == left6);
    assert(rows.skip(1).skip(1) =~= rows.skip(2));
    assert(rows.skip(1)[0] == rows[1]);
    regroup_three("    <name>"@ + x1 + "</name>"@, nl, left6);
    regroup_three("    <name>"@ + x1, "</name>"@, left5);
    regroup_three("    <name>"@, x1, left4);
    assert(rows_text(rows.skip(1)) == left2);
    assert(rows.skip(0).skip(1) =~= rows.skip(1));
    assert(rows.skip(0)[0] == rows[0]);
    regroup_three("  <collection>"@, nl, left2);
    assert(rows_text(rows.skip(0)) == left0);
    assert(rows.skip(0) =~= rows);
}


proof fn md_list_is_rows(infos: Seq<CollectionInfo>)
    ensures
        md_sections(infos) == rows_text(
            sixes(infos.map_values(|i: CollectionInfo| md_rows(i))),
        ),
    decreases infos.len(),
{
    let part = |i: CollectionInfo| md_rows(i);
    let parts = infos.map_values(part);
    if infos.len() > 0 {
        let short = infos.drop_last();
        md_list_is_rows(short);
        md_section_is_rows(infos.last());
        assert(parts.drop_last() =~= short.map_values(part));
        rows_text_joined(sixes(parts.drop_last()), parts.last());
    } else {
        assert(parts =~= Seq::empty());
        assert(sixes(parts) =~= Seq::empty());
    }
}


proof fn xml_list_is_rows(infos: Seq<CollectionInfo>)
    ensures
        xml_elements(infos) == rows_text(
            sixes(infos.map_values(|i: CollectionInfo| xml_rows(i))),
        ),
    decreases infos.len(),
{
    let part = |i: CollectionInfo| xml_rows(i);
    let parts = infos.map_values(part);
    if infos.len() > 0 {
        let short = infos.drop_last();
        xml_list_is_rows(short);
        xml_element_is_rows(infos.last());
        assert(parts.drop_last() =~= short.map_values(part));
        rows_text_joined(sixes(parts.drop_last()), parts.last());
    } else {
        assert(parts =~= Seq::empty());
        assert(sixes(parts) =~= Seq::empty());
    }
}


proof fn md_rows_unbroken(info: CollectionInfo)
    requires
        is_plain_info(info),
    ensures
        rows_unbroken(md_rows(info)),
{
    assert(!"## "@.contains('\n') && !"- path: `"@.contains('\n') && !"`"@.contains('\n')
        && !"- document_count: "@.contains('\n') && !"- description: "@.contains('\n')) by {
        reveal_strlit("## ");
        reveal_strlit("- path: `");
        reveal_strlit("`");
        reveal_strlit("- document_count: ");
        reveal_strlit("- description: ");
    }
    number_is_plain(info.document_count as nat);
    joined_lacks("## "@, info.name@, '\n');
    joined_lacks("- path: `"@, info.path@, '\n');
    joined_lacks("- path: `"@ + info.path@, "`"@, '\n');
    joined_lacks("- document_count: "@, decimal_spec(info.document_count as nat), '\n');
    joined_lacks("- description: "@, told(info.description), '\n');
}

/// The Markdown list has its number of collections at the top and then, in
/// order, a section for every collection, with its name, path, number of
/// documents and description, each on its line.
pub proof fn collections_md_reads_back(report: CollectionListReport)
    requires
        forall|i: int|
            0 <= i < report.collections@.len() ==> is_plain_info(#[trigger] report.collections@[i]),
    ensures
        field(collections_md(report), '\n', 2) == "- "@ + decimal_spec(report.collections@.len())
            + " collections"@,
        forall|i: int|
            0 <= i < report.collections@.len() ==> {
                let info = #[trigger] report.collections@[i];
                let text = collections_md(report);
                let at = (3 + 6 * i) as nat;
                &&& field(text, '\n', at + 1) == "## "@ + info.name@
                &&& field(text, '\n', at + 3) == "- path: `"@ + info.path@ + "`"@
                &&& field(text, '\n', at + 4) == "- document_count: "@ + decimal_spec(
                    info.document_count as nat,
                )
                &&& field(text, '\n', at + 5) == "- description: "@ + told(info.description)
            },
{
    let infos = report.collections@;
    let part = |i: CollectionInfo| md_rows(i);
    let parts = infos.map_values(part);
    let count = "- "@ + decimal_spec(infos.len()) + " collections"@;
    let top = seq!["# Collections"@, Seq::<char>::empty(), count];
    let rows = top + sixes(parts);
    let text = collections_md(report);
    assert(!"# Collections"@.contains('\n') && !"- "@.contains('\n') && !" collections"@.contains(
        '\n',
    )) by {
        reveal_strlit("# Collections");
        reveal_strlit("- ");
        reveal_strlit(" collections");
    }
    number_is_plain(infos.len());
    joined_lacks("- "@, decimal_spec(infos.len()), '\n');
    joined_lacks("- "@ + decimal_spec(infos.len()), " collections"@, '\n');
    md_list_is_rows(infos);
    md_top_is_rows(infos.len());
    rows_text_joined(top, sixes(parts));
    assert(text == rows_text(rows));
    if infos.len() > 0 {
        six_by_six(parts, 0, 0);
    } else {
        assert(sixes(parts) =~= Seq::empty());
    }
    assert forall|n: int| 0 <= n < rows.len() implies !(#[trigger] rows[n]).contains('\n') by {
        if n >= 3 {
            let i = (n - 3) / 6;
            let k = (n - 3) % 6;
            six_by_six(parts, i, k);
            assert(is_plain_info(infos[i]));
            md_rows_unbroken(infos[i]);
            assert(rows[n] == md_rows(infos[i])[k]);
        }
    }
    row_reads_back(rows, 2);
    assert forall|i: int| 0 <= i < infos.len() implies {
        let info = #[trigger] infos[i];
        let at = (3 + 6 * i) as nat;
        &&& field(text, '\n', at + 1) == "## "@ + info.name@
        &&& field(text, '\n', at + 3) == "- path: `"@ + info.path@ + "`"@
        &&& field(text, '\n', at + 4) == "- document_count: "@ + decimal_spec(
            info.document_count as nat,
        )
        &&& field(text, '\n', at + 5) == "- description: "@ + told(info.description)
    } by {
        let at = (3 + 6 * i) as nat;
        six_by_six(parts, i, 1);
        six_by_six(parts, i, 3);
        six_by_six(parts, i, 4);
        six_by_six(parts, i, 5);
        row_reads_back(rows, at + 1);
        row_reads_back(rows, at + 3);
        row_reads_back(rows, at + 4);
        row_reads_back(rows, at + 5);
    }
}

/// The texts of a collection hold no line break once they are escaped.
pub open spec fn is_plain_in_xml(info: CollectionInfo) -> bool {
    &&& !xml_text(info.name@).contains('\n')
    &&& !xml_text(info.path@).contains('\n')
    &&& !description_row(info.description).contains('\n')
}

proof fn xml_rows_unbroken(info: CollectionInfo)
    requires
        is_plain_in_xml(info),
    ensures
        rows_unbroken(xml_rows(info)),
{
    assert(!"  <collection>"@.contains('\n') && !"    <name>"@.contains('\n')
        && !"</name>"@.contains('\n') && !"    <path>"@.contains('\n') && !"</path>"@.contains(
        '\n',
    )) by {
        reveal_strlit("  <collection>");
        reveal_strlit("    <name>");
        reveal_strlit("</name>");
        reveal_strlit("    <path>");
        reveal_strlit("</path>");
    }
    assert(!"    <document_count>"@.contains('\n') && !"</document_count>"@.contains('\n')
        && !"  </collection>"@.contains('\n')) by {
        reveal_strlit("    <document_count>");
        reveal_strlit("</document_count>");
        reveal_strlit("  </collection>");
    }
    number_is_plain(info.document_count as nat);
    let count = decimal_spec(info.document_count as nat);
    joined_lacks("    <name>"@, xml_text(info.name@), '\n');
    joined_lacks("    <name>"@ + xml_text(info.name@), "</name>"@, '\n');
    joined_lacks("    <path>"@, xml_text(info.path@), '\n');
    joined_lacks("    <path>"@ + xml_text(info.path@), "</path>"@, '\n');
    joined_lacks("    <document_count>"@, count, '\n');
    joined_lacks("    <document_count>"@ + count, "</document_count>"@, '\n');
}

/// The XML list has, in order, an element for every collection, with its name,
/// path, description and number of documents, each on its line.
pub proof fn collections_xml_reads_back(report: CollectionListReport)
    requires
        report.collections@.len() > 0,
        forall|i: int|
            0 <= i < report.collections@.len() ==> is_plain_in_xml(
                #[trigger] report.collections@[i],
            ),
    ensures
        field(collections_xml(report), '\n', 1) == "<collections>"@,
        field(collections_xml(report), '\n', (2 + 6 * report.collections@.len()) as nat)
            == "</collections>"@,
        forall|i: int|
            0 <= i < report.collections@.len() ==> {
                let info = #[trigger] report.collections@[i];
                let text = collections_xml(report);
                let at = (2 + 6 * i) as nat;
                &&& field(text, '\n', at + 1) == "    <name>"@ + xml_text(info.name@) + "</name>"@
                &&& field(text, '\n', at + 2) == "    <path>"@ + xml_text(info.path@) + "</path>"@
                &&& field(text, '\n', at + 3) == description_row(info.description)
                &&& field(text, '\n', at + 4) == "    <document_count>"@ + decimal_spec(
                    info.document_count as nat,
                ) + "</document_count>"@
            },
{
    let infos = report.collections@;
    let part = |i: CollectionInfo| xml_rows(i);
    let parts = infos.map_values(part);
    let declaration = "<?xml version=\"1.0\" encoding=\"UTF-8\"?>"@;
    let top = seq![declaration, "<collections>"@];
    let end = seq!["</collections>"@];
    let rows = top + sixes(parts) + end;
    let text = collections_xml(report);
    assert(!declaration.contains('\n') && !"<collections>"@.contains('\n')
        && !"</collections>"@.contains('\n')) by {
        reveal_strlit("<?xml version=\"1.0\" encoding=\"UTF-8\"?>");
        reveal_strlit("<collections>");
        reveal_strlit("</collections>");
    }
    xml_list_is_rows(infos);
    xml_frame_is_rows();
    rows_text_joined(top, sixes(parts));
    rows_text_joined(top + sixes(parts), end);
    assert(text == rows_text(rows));
    six_by_six(parts, 0, 0);
    assert forall|n: int| 0 <= n < rows.len() implies !(#[trigger] rows[n]).contains('\n') by {
        if 2 <= n < rows.len() - 1 {
            let i = (n - 2) / 6;
            let k = (n - 2) % 6;
            six_by_six(parts, i, k);
            assert(is_plain_in_xml(infos[i]));
            xml_rows_unbroken(infos[i]);
            assert(rows[n] == xml_rows(infos[i])[k]);
        }
    }
    row_reads_back(rows, 1);
    row_reads_back(rows, (2 + 6 * infos.len()) as nat);
    assert forall|i: int| 0 <= i < infos.len() implies {
        let info = #[trigger] infos[i];
        let at = (2 + 6 * i) as nat;
        &&& field(text, '\n', at + 1) == "    <name>"@ + xml_text(info.name@) + "</name>"@
        &&& field(text, '\n', at + 2) == "    <path>"@ + xml_text(info.path@) + "</path>"@
        &&& field(text, '\n', at + 3) == description_row(info.description)
        &&& field(text, '\n', at + 4) == "    <document_count>"@ + decimal_spec(
            info.document_count as nat,
        ) + "</document_count>"@
    } by {
        let at = (2 + 6 * i) as nat;
        six_by_six(parts, i, 1);
        six_by_six(parts, i, 2);
        six_by_six(parts, i, 3);
        six_by_six(parts, i, 4);
        row_reads_back(rows, at + 1);
        row_reads_back(rows, at + 2);
        row_reads_back(rows, at + 3);
        row_reads_back(rows, at + 4);
    }
}

proof fn one_row(row: Seq<char>)
    ensures
        rows_text(seq![row]) == row + seq!['\n'],
{
    assert(seq![row].skip(1) =~= Seq::empty());
    assert(rows_text(seq![row].skip(1)) =~= Seq::empty());
    assert(rows_text(seq![row]) =~= row + seq!['\n']);
}

proof fn xml_frame_is_rows()
    ensures
        xml_head() + "<collections>\n"@ == rows_text(
            seq!["<?xml version=\"1.0\" encoding=\"UTF-8\"?>"@, "<collections>"@],
        ),
        "</collections>\n"@ == rows_text(seq!["</collections>"@]),
{
    let declaration = "<?xml version=\"1.0\" encoding=\"UTF-8\"?>"@;
    assert(xml_head() =~= declaration + seq!['\n']) by {
        reveal_strlit("<?xml version=\"1.0\" encoding=\"UTF-8\"?>");
        reveal_strlit("<?xml version=\"1.0\" encoding=\"UTF-8\"?>\n");
    }
    assert("<collections>\n"@ =~= "<collections>"@ + seq!['\n']) by {
        reveal_strlit("<collections>\n");
        reveal_strlit("<collections>");
    }
    assert("</collections>\n"@ =~= "</collections>"@ + seq!['\n']) by {
        reveal_strlit("</collections>\n");
        reveal_strlit("</collections>");
    }
    one_row("</collections>"@);
    one_row("<collections>"@);
    one_row(declaration);
    let top = seq![declaration, "<collections>"@];
    rows_text_joined(seq![declaration], seq!["<collections>"@]);
    assert(seq![declaration] + seq!["<collections>"@] =~= top);
}

proof fn md_top_is_rows(n: nat)
    ensures
        "# Collections\n\n- "@ + decimal_spec(n) + " collections\n"@ == rows_text(
            seq![
                "# Collections"@,
                Seq::<char>::empty(),
                "- "@ + decimal_spec(n) + " collections"@,
            ],
        ),
{
    let nl = seq!['\n'];
    let count = "- "@ + decimal_spec(n) + " collections"@;
    assert("# Collections\n\n- "@ =~= "# Collections"@ + nl + nl + "- "@) by {
        reveal_strlit("# Collections\n\n- ");
        reveal_strlit("# Collections");
        reveal_strlit("- ");
    }
    assert(" collections\n"@ =~= " collections"@ + nl) by {
        reveal_strlit(" collections\n");
        reveal_strlit(" collections");
    }
    one_row("# Collections"@);
    one_row(Seq::empty());
    one_row(count);
    rows_text_joined(seq!["# Collections"@], seq![Seq::<char>::empty()]);
    let two = seq!["# Collections"@] + seq![Seq::<char>::empty()];
    rows_text_joined(two, seq![count]);
    assert(two + seq![count] =~= seq!["# Collections"@, Seq::<char>::empty(), count]);
    assert("# Collections\n\n- "@ + decimal_spec(n) + " collections\n"@ =~= rows_text(two)
        + rows_text(seq![count]));
}

} // verus!
