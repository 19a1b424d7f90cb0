//! Reports as text: plain, Markdown and XML.

use crate::introspect::{CollectionInfo, CollectionListReport, StatusReport};
use crate::text::{decimal, decimal_spec, to_chars};
use vstd::prelude::*;
use vstd::string::StringExecFns;

verus! {

/// Stands where a collection has no description.
pub const NO_DESCRIPTION_HUMAN: &'static str = "(none)";

/// The text of `c` in XML content.
pub open spec fn xml_char(c: char) -> Seq<char> {
    if c == '&' {
        "&amp;"@
    } else if c == '<' {
        "&lt;"@
    } else if c == '>' {
        "&gt;"@
    } else if c == '"' {
        "&quot;"@
    } else if c == '\'' {
        "&apos;"@
    } else {
        seq![c]
    }
}

/// `s` as XML content.
pub open spec fn xml_text(s: Seq<char>) -> Seq<char>
    decreases s.len(),
{
    if s.len() == 0 {
        Seq::empty()
    } else {
        xml_text(s.drop_last()) + xml_char(s.last())
    }
}

/// `s` as XML content.
pub fn xml_escape(s: &str) -> (text: String)
    ensures
        text@ == xml_text(s@),
{
    let chars: Vec<char> = to_chars(s);
    let mut text: String = String::new();
    proof {
        assert(text@ =~= Seq::empty());
    }
    for i in 0..chars.len()
        invariant
            chars@ == s@,
            text@ == xml_text(s@.take(i as int)),
    {
        let c: char = chars[i];
        let ghost before = text@;
        proof {
            assert(s@.take(i as int + 1).drop_last() =~= s@.take(i as int));
        }
        if c == '&' {
            text.append("&amp;");
        } else if c == '<' {
            text.append("&lt;");
        } else if c == '>' {
            text.append("&gt;");
        } else if c == '"' {
            text.append("&quot;");
        } else if c == '\'' {
            text.append("&apos;");
        } else {
            text.push(c);
            proof {
                assert(text@ =~= before + seq![c]);
            }
        }
    }
    proof {
        assert(s@.take(s@.len() as int) =~= s@);
    }
    text
}

/// The description that is shown.
pub open spec fn shown_description(info: CollectionInfo) -> Seq<char> {
    match info.description {
        Some(text) => text@,
        None => NO_DESCRIPTION_HUMAN@,
    }
}

/// The description that is shown.
fn description_of(info: &CollectionInfo) -> (text: &str)
    ensures
        text@ == shown_description(*info),
{
    match &info.description {
        Some(text) => text.as_str(),
        None => NO_DESCRIPTION_HUMAN,
    }
}

/// One line of the plain list.
pub open spec fn human_line(info: CollectionInfo) -> Seq<char> {
    info.name@ + "\t"@ + info.path@ + "\t"@ + decimal_spec(info.document_count as nat)
        + " docs\t"@ + shown_description(info) + "\n"@
}

/// The lines of the plain list.
pub open spec fn human_lines(infos: Seq<CollectionInfo>) -> Seq<char>
    decreases infos.len(),
{
    if infos.len() == 0 {
        Seq::empty()
    } else {
        human_lines(infos.drop_last()) + human_line(infos.last())
    }
}

/// The plain list: a line per collection and a count.
pub open spec fn collections_human(report: CollectionListReport) -> Seq<char> {
    human_lines(report.collections@) + decimal_spec(report.collections@.len()) + " collections\n"@
}

fn line_human(info: &CollectionInfo) -> (text: String)
    ensures
        text@ == human_line(*info),
{
    let mut text: String = info.name.clone();
    text.append("\t");
    text.append(info.path.as_str());
    text.append("\t");
    text.append(decimal(info.document_count).as_str());
    text.append(" docs\t");
    text.append(description_of(info));
    text.append("\n");
    text
}

/// Writes the plain list.
pub fn print_collections_human(writer: &mut String, report: &CollectionListReport)
    ensures
        final(writer)@ == old(writer)@ + collections_human(*report),
{
    let infos: &Vec<CollectionInfo> = &report.collections;
    let mut text: String = String::new();
    proof {
        assert(text@ =~= Seq::empty());
    }
    for i in 0..infos.len()
        invariant
            infos == report.collections,
            text@ == human_lines(infos@.take(i as int)),
    {
        proof {
            assert(infos@.take(i as int + 1).drop_last() =~= infos@.take(i as int));
        }
        text.append(line_human(&infos[i]).as_str());
    }
    proof {
        assert(infos@.take(infos@.len() as int) =~= infos@);
    }
    text.append(decimal(infos.len() as u64).as_str());
    text.append(" collections\n");
    writer.append(text.as_str());
}

/// The section of one collection in the Markdown list.
pub open spec fn md_section(info: CollectionInfo) -> Seq<char> {
    "\n## "@ + info.name@ + "\n\n- path: `"@ + info.path@ + "`\n- document_count: "@
        + decimal_spec(info.document_count as nat) + "\n- description: "@ + shown_description(info)
        + "\n"@
}

/// The sections of the Markdown list.
pub open spec fn md_sections(infos: Seq<CollectionInfo>) -> Seq<char>
    decreases infos.len(),
{
    if infos.len() == 0 {
        Seq::empty()
    } else {
        md_sections(infos.drop_last()) + md_section(infos.last())
    }
}

/// The Markdown list: a count and a section per collection.
pub open spec fn collections_md(report: CollectionListReport) -> Seq<char> {
    "# Collections\n\n- "@ + decimal_spec(report.collections@.len()) + " collections\n"@
        + md_sections(report.collections@)
}

fn section_md(info: &CollectionInfo) -> (text: String)
    ensures
        text@ == md_section(*info),
{
    let mut text: String = "\n## ".to_string();
    text.append(info.name.as_str());
    text.append("\n\n- path: `");
    text.append(info.path.as_str());
    text.append("`\n- document_count: ");
    text.append(decimal(info.document_count).as_str());
    text.append("\n- description: ");
    text.append(description_of(info));
    text.append("\n");
    text
}

/// Writes the Markdown list.
pub fn print_collections_md(writer: &mut String, report: &CollectionListReport)
    ensures
        final(writer)@ == old(writer)@ + collections_md(*report),
{
    let infos: &Vec<CollectionInfo> = &report.collections;
    let mut sections: String = String::new();
    proof {
        assert(sections@ =~= Seq::empty());
    }
    for i in 0..infos.len()
        invariant
            infos == report.collections,
            sections@ == md_sections(infos@.take(i as int)),
    {
        proof {
            assert(infos@.take(i as int + 1).drop_last() =~= infos@.take(i as int));
        }
        sections.append(section_md(&infos[i]).as_str());
    }
    proof {
        assert(infos@.take(infos@.len() as int) =~= infos@);
    }
    let mut text: String = "# Collections\n\n- ".to_string();
    text.append(decimal(infos.len() as u64).as_str());
    text.append(" collections\n");
    text.append(sections.as_str());
    writer.append(text.as_str());
}

/// The first line of an XML report.
pub open spec fn xml_head() -> Seq<char> {
    "<?xml version=\"1.0\" encoding=\"UTF-8\"?>\n"@
}

/// The element of a description, closed in itself where there is none.
pub open spec fn description_element(info: CollectionInfo) -> Seq<char> {
    match info.description {
        Some(text) => "    <description>"@ + xml_text(text@) + "</description>\n"@,
        None => "    <description/>\n"@,
    }
}

/// The element of one collection.
pub open spec fn xml_element(info: CollectionInfo) -> Seq<char> {
    "  <collection>\n    <name>"@ + xml_text(info.name@) + "</name>\n    <path>"@ + xml_text(
        info.path@,
    ) + "</path>\n"@ + description_element(info) + "    <document_count>"@ + decimal_spec(
        info.document_count as nat,
    ) + "</document_count>\n  </collection>\n"@
}

/// The elements of the XML list.
pub open spec fn xml_elements(infos: Seq<CollectionInfo>) -> Seq<char>
    decreases infos.len(),
{
    if infos.len() == 0 {
        Seq::empty()
    } else {
        xml_elements(infos.drop_last()) + xml_element(infos.last())
    }
}

/// The XML list: an element per collection; the root is closed in itself where
/// there is none.
pub open spec fn collections_xml(report: CollectionListReport) -> Seq<char> {
    if report.collections@.len() == 0 {
        xml_head() + "<collections/>\n"@
    } else {
        xml_head() + "<collections>\n"@ + xml_elements(report.collections@) + "</collections>\n"@
    }
}

fn element_description(info: &CollectionInfo) -> (text: String)
    ensures
        text@ == description_element(*info),
{
    match &info.description {
        Some(value) => {
            let mut text: String = "    <description>".to_string();
            text.append(xml_escape(value.as_str()).as_str());
            text.append("</description>\n");
            text
        },
        None => "    <description/>\n".to_string(),
    }
}

fn element_xml(info: &CollectionInfo) -> (text: String)
    ensures
        text@ == xml_element(*info),
{
    let mut text: String = "  <collection>\n    <name>".to_string();
    text.append(xml_escape(info.name.as_str()).as_str());
    text.append("</name>\n    <path>");
    text.append(xml_escape(info.path.as_str()).as_str());
    text.append("</path>\n");
    text.append(element_description(info).as_str());
    text.append("    <document_count>");
    text.append(decimal(info.document_count).as_str());
    text.append("</document_count>\n  </collection>\n");
    text
}

/// Writes the XML list.
pub fn print_collections_xml(writer: &mut String, report: &CollectionListReport)
    ensures
        final(writer)@ == old(writer)@ + collections_xml(*report),
{
    let infos: &Vec<CollectionInfo> = &report.collections;
    let mut text: String = "<?xml version=\"1.0\" encoding=\"UTF-8\"?>\n".to_string();
    if infos.len() == 0 {
        text.append("<collections/>\n");
        writer.append(text.as_str());
        return;
    }
    text.append("<collections>\n");
    let mut elements: String = String::new();
    proof {
        assert(elements@ =~= Seq::empty());
    }
    for i in 0..infos.len()
        invariant
            infos == report.collections,
            elements@ == xml_elements(infos@.take(i as int)),
    {
        proof {
            assert(infos@.take(i as int + 1).drop_last() =~= infos@.take(i as int));
        }
        elements.append(element_xml(&infos[i]).as_str());
    }
    proof {
        assert(infos@.take(infos@.len() as int) =~= infos@);
    }
    text.append(elements.as_str());
    text.append("</collections>\n");
    writer.append(text.as_str());
}

/// The plain report on the index.
pub open spec fn status_human(report: StatusReport) -> Seq<char> {
    "version:         "@ + report.version@ + "\nembedding_model: "@ + report.embedding_model@
        + "\nvector_dim:      "@ + decimal_spec(report.vector_dim as nat)
        + "\ncollections:     "@ + decimal_spec(report.collections as nat)
        + "\nchunks:          "@ + decimal_spec(report.chunks as nat) + "\nsources:         "@
        + decimal_spec(report.sources as nat) + "\n"@
}

/// Writes the plain report on the index.
pub fn print_status_human(writer: &mut String, report: &StatusReport)
    ensures
        final(writer)@ == old(writer)@ + status_human(*report),
{
    let mut text: String = "version:         ".to_string();
    text.append(report.version.as_str());
    text.append("\nembedding_model: ");
    text.append(report.embedding_model.as_str());
    text.append("\nvector_dim:      ");
    text.append(decimal(report.vector_dim as u64).as_str());
    text.append("\ncollections:     ");
    text.append(decimal(report.collections).as_str());
    text.append("\nchunks:          ");
    text.append(decimal(report.chunks).as_str());
    text.append("\nsources:         ");
    text.append(decimal(report.sources).as_str());
    text.append("\n");
    writer.append(text.as_str());
}

/// The Markdown report on the index.
pub open spec fn status_md(report: StatusReport) -> Seq<char> {
    "# Status\n\n- version: "@ + report.version@ + "\n- embedding_model: `"@
        + report.embedding_model@ + "`\n- vector_dim: "@ + decimal_spec(report.vector_dim as nat)
        + "\n- collections: "@ + decimal_spec(report.collections as nat) + "\n- chunks: "@
        + decimal_spec(report.chunks as nat) + "\n- sources: "@ + decimal_spec(
        report.sources as nat,
    ) + "\n"@
}

/// Writes the Markdown report on the index.
pub fn print_status_md(writer: &mut String, report: &StatusReport)
    ensures
        final(writer)@ == old(writer)@ + status_md(*report),
{
    let mut text: String = "# Status\n\n- version: ".to_string();
    text.append(report.version.as_str());
    text.append("\n- embedding_model: `");
    text.append(report.embedding_model.as_str());
    text.append("`\n- vector_dim: ");
    text.append(decimal(report.vector_dim as u64).as_str());
    text.append("\n- collections: ");
    text.append(decimal(report.collections).as_str());
    text.append("\n- chunks: ");
    text.append(decimal(report.chunks).as_str());
    text.append("\n- sources: ");
    text.append(decimal(report.sources).as_str());
    text.append("\n");
    writer.append(text.as_str());
}

/// The XML report on the index.
pub open spec fn status_xml(report: StatusReport) -> Seq<char> {
    xml_head() + "<status>\n  <version>"@ + xml_text(report.version@)
        + "</version>\n  <embedding_model>"@ + xml_text(report.embedding_model@)
        + "</embedding_model>\n  <vector_dim>"@ + decimal_spec(report.vector_dim as nat)
        + "</vector_dim>\n  <collections>"@ + decimal_spec(report.collections as nat)
        + "</collections>\n  <chunks>"@ + decimal_spec(report.chunks as nat)
        + "</chunks>\n  <sources>"@ + decimal_spec(report.sources as nat)
        + "</sources>\n</status>\n"@
}

/// Writes the XML report on the index.
pub fn print_status_xml(writer: &mut String, report: &StatusReport)
    ensures
        final(writer)@ == old(writer)@ + status_xml(*report),
{
    let mut text: String = "<?xml version=\"1.0\" encoding=\"UTF-8\"?>\n".to_string();
    text.append("<status>\n  <version>");
    text.append(xml_escape(report.version.as_str()).as_str());
    text.append("</version>\n  <embedding_model>");
    text.append(xml_escape(report.embedding_model.as_str()).as_str());
    text.append("</embedding_model>\n  <vector_dim>");
    text.append(decimal(report.vector_dim as u64).as_str());
    text.append("</vector_dim>\n  <collections>");
    text.append(decimal(report.collections).as_str());
    text.append("</collections>\n  <chunks>");
    text.append(decimal(report.chunks).as_str());
    text.append("</chunks>\n  <sources>");
    text.append(decimal(report.sources).as_str());
    text.append("</sources>\n</status>\n");
    writer.append(text.as_str());
}

proof fn xml_char_is_plain(c: char)
    ensures
        forall|i: int|
            0 <= i < xml_char(c).len() ==> #[trigger] xml_char(c)[i] != '<' && xml_char(c)[i]
                != '>' && xml_char(c)[i] != '"' && xml_char(c)[i] != '\'',
{
    reveal_strlit("&amp;");
    reveal_strlit("&lt;");
    reveal_strlit("&gt;");
    reveal_strlit("&quot;");
    reveal_strlit("&apos;");
}

/// Escaped text holds no character that could open or close a tag or a quoted
/// value.
pub proof fn xml_text_is_plain(s: Seq<char>)
    ensures
        forall|i: int|
            0 <= i < xml_text(s).len() ==> #[trigger] xml_text(s)[i] != '<' && xml_text(s)[i] != '>'
                && xml_text(s)[i] != '"' && xml_text(s)[i] != '\'',
    decreases s.len(),
{
    if s.len() > 0 {
        xml_text_is_plain(s.drop_last());
        xml_char_is_plain(s.last());
        let before = xml_text(s.drop_last());
        let added = xml_char(s.last());
        assert forall|i: int| 0 <= i < xml_text(s).len() implies #[trigger] xml_text(s)[i] != '<'
            && xml_text(s)[i] != '>' && xml_text(s)[i] != '"' && xml_text(s)[i] != '\'' by {
            if i < before.len() {
                assert(xml_text(s)[i] == before[i]);
            } else {
                assert(xml_text(s)[i] == added[i - before.len()]);
            }
        }
    }
}

} // verus!
