//! The notice document: a report rendered in the notifier's XML format,
//! version 2.

use vstd::prelude::*;
use crate::decimal::{decimal, push_decimal};
use crate::escape::{escape, push_escaped};
use crate::report::{frame_view, frames_view, ErrbitError, FrameView, ReportView};

verus! {

/// An element, or the opening of one, with `text` escaped between two
/// pieces of markup.
pub open spec fn element(open: Seq<char>, text: Seq<char>, close: Seq<char>) -> Seq<char> {
    open + escape(text) + close
}

/// The part of the document that names the notifier.
pub open spec fn notifier_block(r: ReportView) -> Seq<char> {
    "    <notifier>\n"@ + element("        <name>"@, r.app_name, "</name>\n"@) + element(
        "        <version>"@,
        r.version,
        "</version>\n"@,
    ) + element("        <url>"@, r.source_url, "</url>\n"@) + "    </notifier>\n"@
}

/// The part of the document that names the deployment stage.
pub open spec fn environment_block(r: ReportView) -> Seq<char> {
    "    <server-environment>\n"@ + element(
        "        <environment-name>"@,
        r.environment,
        "</environment-name>\n"@,
    ) + "    </server-environment>\n"@
}

/// The part of the document that says where the error arose.
pub open spec fn request_block(r: ReportView) -> Seq<char> {
    "    <request>\n"@ + "        <url></url>\n"@ + element(
        "        <component>"@,
        r.component_name,
        "</component>\n"@,
    ) + "        <cgi-data>\n"@ + element(
        "            <var key=\"nodeName\">"@,
        r.node_name,
        "</var>\n"@,
    ) + element("            <var key=\"componentName\">"@, r.component_name, "</var>\n"@)
        + "        </cgi-data>\n"@ + "    </request>\n"@
}

/// The element that stands for one frame. The frame's source text is not
/// part of it.
pub open spec fn line_element(f: FrameView) -> Seq<char> {
    "            <line method=\""@ + escape(f.function) + "\" file=\""@ + escape(f.filename)
        + "\" number=\""@ + decimal(f.line as nat) + "\"/>\n"@
}

/// The elements of the frames, in the order of the frames.
pub open spec fn line_elements(frames: Seq<FrameView>) -> Seq<char>
    decreases frames.len(),
{
    if frames.len() == 0 {
        Seq::empty()
    } else {
        line_elements(frames.drop_last()) + line_element(frames.last())
    }
}

/// The backtrace element; where there is no frame there is no element.
pub open spec fn backtrace_block(frames: Seq<FrameView>) -> Seq<char> {
    if frames.len() == 0 {
        Seq::empty()
    } else {
        "        <backtrace>\n"@ + line_elements(frames) + "        </backtrace>\n"@
    }
}

/// The part of the document that describes the error, up to the backtrace.
/// Class and message stand side by side on one line.
pub open spec fn error_head(r: ReportView) -> Seq<char> {
    "    <error>\n"@ + element("        <class>"@, r.exc_class, "</class>"@) + element(
        "<message>"@,
        r.message,
        "</message>\n"@,
    )
}

/// The document up to the error element.
pub open spec fn preamble(r: ReportView) -> Seq<char> {
    "<notice version=\"2.0\">\n"@ + element("    <api-key>"@, r.api_key, "</api-key>\n"@)
        + notifier_block(r) + environment_block(r) + request_block(r)
}

/// What closes the document.
pub open spec fn closing() -> Seq<char> {
    "    </error>\n"@ + "        </notice>"@
}

/// The notice document of a report.
pub open spec fn document(r: ReportView) -> Seq<char> {
    preamble(r) + error_head(r) + backtrace_block(r.frames()) + closing()
}

fn push_element(out: &mut String, open: &str, text: &str, close: &str)
    ensures
        final(out)@ == old(out)@ + element(open@, text@, close@),
{
    out.append(open);
    push_escaped(out, text);
    out.append(close);
    assert(out@ =~= old(out)@ + element(open@, text@, close@));
}

fn push_notifier(out: &mut String, error: &ErrbitError)
    ensures
        final(out)@ == old(out)@ + notifier_block(error@),
{
    out.append("    <notifier>\n");
    push_element(out, "        <name>", error.app_name.as_str(), "</name>\n");
    push_element(out, "        <version>", error.version.as_str(), "</version>\n");
    push_element(out, "        <url>", error.source_url.as_str(), "</url>\n");
    out.append("    </notifier>\n");
    assert(out@ =~= old(out)@ + notifier_block(error@));
}

fn push_environment(out: &mut String, error: &ErrbitError)
    ensures
        final(out)@ == old(out)@ + environment_block(error@),
{
    out.append("    <server-environment>\n");
    push_element(
        out,
        "        <environment-name>",
        error.environment.as_str(),
        "</environment-name>\n",
    );
    out.append("    </server-environment>\n");
    assert(out@ =~= old(out)@ + environment_block(error@));
}

fn push_request(out: &mut String, error: &ErrbitError)
    ensures
        final(out)@ == old(out)@ + request_block(error@),
{
    out.append("    <request>\n");
    out.append("        <url></url>\n");
    push_element(out, "        <component>", error.component_name.as_str(), "</component>\n");
    out.append("        <cgi-data>\n");
    push_element(out, "            <var key=\"nodeName\">", error.node_name.as_str(), "</var>\n");
    push_element(
        out,
        "            <var key=\"componentName\">",
        error.component_name.as_str(),
        "</var>\n",
    );
    out.append("        </cgi-data>\n");
    out.append("    </request>\n");
    assert(out@ =~= old(out)@ + request_block(error@));
}

fn push_line(out: &mut String, frame: &(String, u32, String, String))
    ensures
        final(out)@ == old(out)@ + line_element(frame_view(*frame)),
{
    out.append("            <line method=\"");
    push_escaped(out, frame.2.as_str());
    out.append("\" file=\"");
    push_escaped(out, frame.0.as_str());
    out.append("\" number=\"");
    push_decimal(out, frame.1);
    out.append("\"/>\n");
    assert(out@ =~= old(out)@ + line_element(frame_view(*frame)));
}

fn push_backtrace(out: &mut String, frames: &Vec<(String, u32, String, String)>)
    ensures
        final(out)@ == old(out)@ + backtrace_block(frames_view(frames@)),
{
    let ghost before = out@;
    let ghost all = frames_view(frames@);
    if frames.len() == 0 {
        assert(before + Seq::<char>::empty() =~= before);
        return ;
    }
    out.append("        <backtrace>\n");
    let ghost opened = out@;
    assert(all.take(0) =~= Seq::<FrameView>::empty());
    assert(opened + line_elements(all.take(0)) =~= opened);
    for i in 0..frames.len()
        invariant
            all == frames_view(frames@),
            out@ == opened + line_elements(all.take(i as int)),
    {
        push_line(out, &frames[i]);
        proof {
            let next = all.take(i + 1);
            assert(next.drop_last() =~= all.take(i as int));
            assert(next.last() == frame_view(frames@[i as int]));
            assert(opened + line_elements(next) =~= opened + line_elements(all.take(i as int))
                + line_element(next.last()));
        }
    }
    assert(all.take(frames.len() as int) =~= all);
    out.append("        </backtrace>\n");
    assert(out@ =~= before + backtrace_block(all));
}

/// Renders a report as a notice document. Every text of the report is
/// escaped on its way into the document, and a report without frames, or
/// without a backtrace at all, gets no backtrace element.
pub fn generate_errbit_xml(error: &ErrbitError) -> (xml: String)
    ensures
        xml@ == document(error@),
{
    let mut xml = String::new();
    xml.append("<notice version=\"2.0\">\n");
    push_element(&mut xml, "    <api-key>", error.api_key.as_str(), "</api-key>\n");
    push_notifier(&mut xml, error);
    push_environment(&mut xml, error);
    push_request(&mut xml, error);
    assert(xml@ =~= preamble(error@));
    xml.append("    <error>\n");
    push_element(&mut xml, "        <class>", error.exc_class.as_str(), "</class>");
    push_element(&mut xml, "<message>", error.message.as_str(), "</message>\n");
    assert(xml@ =~= preamble(error@) + error_head(error@));
    match &error.backtrace {
        Some(frames) => {
            push_backtrace(&mut xml, frames);
        },
        None => {
            assert(xml@ + backtrace_block(error@.frames()) =~= xml@);
        },
    }
    xml.append("    </error>\n");
    xml.append("        </notice>");
    assert(xml@ =~= document(error@));
    xml
}

} // verus!
