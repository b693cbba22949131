//! What a reader finds in a notice document: where the frames of the
//! backtrace stand, and where the message stands.

use vstd::prelude::*;
use crate::decimal::decimal;
use crate::escape::{
    escape,
    is_escaped,
    lemma_escape_is_escaped,
    lemma_unescape_escape,
    occurs_at,
    unescape,
};
use crate::markup::{
    has_no_tag,
    has_one_tag,
    lemma_decimal_has_no_tag,
    lemma_escape_has_no_tag,
    lemma_has_one_tag_then_none,
    lemma_no_tag_opens_none,
    lemma_occurrence_opens_tag,
    lemma_occurs_in_middle,
    lemma_opens_no_tag_concat,
    opens_no_tag,
};
use crate::report::{ErrbitError, FrameView, ReportView};
use crate::xml::{
    backtrace_block,
    closing,
    document,
    element,
    environment_block,
    error_head,
    line_element,
    line_elements,
    notifier_block,
    preamble,
    request_block,
};

verus! {

/// How far into the run of line elements the element of frame `k` begins.
pub open spec fn line_offset(frames: Seq<FrameView>, k: int) -> int {
    line_elements(frames.take(k)).len() as int
}

/// How far into the document the run of line elements begins, where there is
/// one.
pub open spec fn lines_start(r: ReportView) -> int {
    (preamble(r) + error_head(r) + "        <backtrace>\n"@).len() as int
}

/// How far into the document the line element of frame `k` begins.
pub open spec fn line_position(r: ReportView, k: int) -> int {
    lines_start(r) + line_offset(r.frames(), k)
}

/// How far into a line element its tag opens: behind the indentation.
pub open spec fn line_indent() -> int {
    12
}

/// The message element of a report.
pub open spec fn message_element(r: ReportView) -> Seq<char> {
    element("<message>"@, r.message, "</message>\n"@)
}

/// How far into the document the message element begins.
pub open spec fn message_position(r: ReportView) -> int {
    (preamble(r) + "    <error>\n"@ + element("        <class>"@, r.exc_class, "</class>"@)).len() as int
}

proof fn lemma_element_opens_no_tag(open: Seq<char>, text: Seq<char>, close: Seq<char>, c: char)
    requires
        opens_no_tag(open, c),
        opens_no_tag(close, c),
    ensures
        opens_no_tag(element(open, text, close), c),
{
    lemma_escape_has_no_tag(text);
    lemma_no_tag_opens_none(escape(text), c);
    lemma_opens_no_tag_concat(open, escape(text), c);
    lemma_opens_no_tag_concat(open + escape(text), close, c);
}

proof fn lemma_notifier_opens_no_tag(r: ReportView, c: char)
    requires
        c == 'b' || c == 'l',
    ensures
        opens_no_tag(notifier_block(r), c),
{
    reveal_strlit("    <notifier>\n");
    reveal_strlit("        <name>");
    reveal_strlit("</name>\n");
    reveal_strlit("        <version>");
    reveal_strlit("</version>\n");
    reveal_strlit("        <url>");
    reveal_strlit("</url>\n");
    reveal_strlit("    </notifier>\n");
    let a = "    <notifier>\n"@;
    let b = element("        <name>"@, r.app_name, "</name>\n"@);
    let d = element("        <version>"@, r.version, "</version>\n"@);
    let e = element("        <url>"@, r.source_url, "</url>\n"@);
    let f = "    </notifier>\n"@;
    lemma_element_opens_no_tag("        <name>"@, r.app_name, "</name>\n"@, c);
    lemma_element_opens_no_tag("        <version>"@, r.version, "</version>\n"@, c);
    lemma_element_opens_no_tag("        <url>"@, r.source_url, "</url>\n"@, c);
    lemma_opens_no_tag_concat(a, b, c);
    lemma_opens_no_tag_concat(a + b, d, c);
    lemma_opens_no_tag_concat(a + b + d, e, c);
    lemma_opens_no_tag_concat(a + b + d + e, f, c);
}

proof fn lemma_environment_opens_no_tag(r: ReportView, c: char)
    requires
        c == 'b' || c == 'l',
    ensures
        opens_no_tag(environment_block(r), c),
{
    reveal_strlit("    <server-environment>\n");
    reveal_strlit("        <environment-name>");
    reveal_strlit("</environment-name>\n");
    reveal_strlit("    </server-environment>\n");
    let a = "    <server-environment>\n"@;
    let b = element("        <environment-name>"@, r.environment, "</environment-name>\n"@);
    let d = "    </server-environment>\n"@;
    lemma_element_opens_no_tag(
        "        <environment-name>"@,
        r.environment,
        "</environment-name>\n"@,
        c,
    );
    lemma_opens_no_tag_concat(a, b, c);
    lemma_opens_no_tag_concat(a + b, d, c);
}

proof fn lemma_request_opens_no_tag(r: ReportView, c: char)
    requires
        c == 'b' || c == 'l',
    ensures
        opens_no_tag(request_block(r), c),
{
    reveal_strlit("    <request>\n");
    reveal_strlit("        <url></url>\n");
    reveal_strlit("        <component>");
    reveal_strlit("</component>\n");
    reveal_strlit("        <cgi-data>\n");
    reveal_strlit("            <var key=\"nodeName\">");
    reveal_strlit("            <var key=\"componentName\">");
    reveal_strlit("</var>\n");
    reveal_strlit("        </cgi-data>\n");
    reveal_strlit("    </request>\n");
    let a = "    <request>\n"@;
    let b = "        <url></url>\n"@;
    let d = element("        <component>"@, r.component_name, "</component>\n"@);
    let e = "        <cgi-data>\n"@;
    let f = element("            <var key=\"nodeName\">"@, r.node_name, "</var>\n"@);
    let g = element("            <var key=\"componentName\">"@, r.component_name, "</var>\n"@);
    let h = "        </cgi-data>\n"@;
    let k = "    </request>\n"@;
    lemma_element_opens_no_tag("        <component>"@, r.component_name, "</component>\n"@, c);
    lemma_element_opens_no_tag("            <var key=\"nodeName\">"@, r.node_name, "</var>\n"@, c);
    lemma_element_opens_no_tag(
        "            <var key=\"componentName\">"@,
        r.component_name,
        "</var>\n"@,
        c,
    );
    lemma_opens_no_tag_concat(a, b, c);
    lemma_opens_no_tag_concat(a + b, d, c);
    lemma_opens_no_tag_concat(a + b + d, e, c);
    lemma_opens_no_tag_concat(a + b + d + e, f, c);
    lemma_opens_no_tag_concat(a + b + d + e + f, g, c);
    lemma_opens_no_tag_concat(a + b + d + e + f + g, h, c);
    lemma_opens_no_tag_concat(a + b + d + e + f + g + h, k, c);
}

proof fn lemma_preamble_opens_no_tag(r: ReportView, c: char)
    requires
        c == 'b' || c == 'l',
    ensures
        opens_no_tag(preamble(r), c),
{
    reveal_strlit("<notice version=\"2.0\">\n");
    reveal_strlit("    <api-key>");
    reveal_strlit("</api-key>\n");
    let a = "<notice version=\"2.0\">\n"@;
    let b = element("    <api-key>"@, r.api_key, "</api-key>\n"@);
    lemma_element_opens_no_tag("    <api-key>"@, r.api_key, "</api-key>\n"@, c);
    lemma_notifier_opens_no_tag(r, c);
    lemma_environment_opens_no_tag(r, c);
    lemma_request_opens_no_tag(r, c);
    lemma_opens_no_tag_concat(a, b, c);
    lemma_opens_no_tag_concat(a + b, notifier_block(r), c);
    lemma_opens_no_tag_concat(a + b + notifier_block(r), environment_block(r), c);
    lemma_opens_no_tag_concat(
        a + b + notifier_block(r) + environment_block(r),
        request_block(r),
        c,
    );
}

proof fn lemma_error_head_opens_no_tag(r: ReportView, c: char)
    requires
        c == 'b' || c == 'l',
    ensures
        opens_no_tag(error_head(r), c),
{
    reveal_strlit("    <error>\n");
    reveal_strlit("        <class>");
    reveal_strlit("</class>");
    reveal_strlit("<message>");
    reveal_strlit("</message>\n");
    let a = "    <error>\n"@;
    let b = element("        <class>"@, r.exc_class, "</class>"@);
    let d = element("<message>"@, r.message, "</message>\n"@);
    lemma_element_opens_no_tag("        <class>"@, r.exc_class, "</class>"@, c);
    lemma_element_opens_no_tag("<message>"@, r.message, "</message>\n"@, c);
    lemma_opens_no_tag_concat(a, b, c);
    lemma_opens_no_tag_concat(a + b, d, c);
}

proof fn lemma_closing_opens_no_tag(c: char)
    requires
        c == 'b' || c == 'l',
    ensures
        opens_no_tag(closing(), c),
{
    reveal_strlit("    </error>\n");
    reveal_strlit("        </notice>");
    lemma_opens_no_tag_concat("    </error>\n"@, "        </notice>"@, c);
}

/// In a line element the one `<` stands behind the indentation, and opens
/// the line tag.
proof fn lemma_line_element_shape(f: FrameView)
    ensures
        has_one_tag(line_element(f), line_indent()),
        occurs_at(line_element(f), "<line "@, line_indent()),
        line_element(f).len() > line_indent() + 6,
{
    reveal_strlit("            <line method=\"");
    reveal_strlit("\" file=\"");
    reveal_strlit("\" number=\"");
    reveal_strlit("\"/>\n");
    reveal_strlit("<line ");
    let a = "            <line method=\""@;
    let b = escape(f.function);
    let c = "\" file=\""@;
    let d = escape(f.filename);
    let e = "\" number=\""@;
    let g = decimal(f.line as nat);
    let h = "\"/>\n"@;
    lemma_escape_has_no_tag(f.function);
    lemma_escape_has_no_tag(f.filename);
    lemma_decimal_has_no_tag(f.line as nat);
    assert(has_one_tag(a, 12));
    assert(has_no_tag(c));
    assert(has_no_tag(e));
    assert(has_no_tag(h));
    lemma_has_one_tag_then_none(a, 12, b);
    lemma_has_one_tag_then_none(a + b, 12, c);
    lemma_has_one_tag_then_none(a + b + c, 12, d);
    lemma_has_one_tag_then_none(a + b + c + d, 12, e);
    lemma_has_one_tag_then_none(a + b + c + d + e, 12, g);
    lemma_has_one_tag_then_none(a + b + c + d + e + g, 12, h);
    assert(a.subrange(12, 18) =~= "<line "@);
    assert(line_element(f).subrange(12, 18) =~= a.subrange(12, 18));
}

proof fn lemma_occurs_within(doc: Seq<char>, part: Seq<char>, at: int, pat: Seq<char>, i: int)
    requires
        occurs_at(doc, part, at),
        occurs_at(part, pat, i),
    ensures
        occurs_at(doc, pat, at + i),
{
    let found = doc.subrange(at, at + part.len());
    assert(doc.subrange(at + i, at + i + pat.len()) =~= found.subrange(i, i + pat.len()));
}

/// In the run of line elements, the element of each frame stands at its
/// offset, the offsets grow with the frames, and a `<` stands nowhere but
/// where a line tag opens.
proof fn lemma_line_elements_shape(frames: Seq<FrameView>)
    ensures
        forall|k: int|
            0 <= k < frames.len() ==> occurs_at(
                line_elements(frames),
                line_element(frames[k]),
                #[trigger] line_offset(frames, k),
            ),
        forall|j: int, k: int|
            0 <= j < k <= frames.len() ==> #[trigger] line_offset(frames, j) < #[trigger] line_offset(
                frames,
                k,
            ),
        line_offset(frames, frames.len() as int) == line_elements(frames).len(),
        forall|i: int|
            0 <= i < line_elements(frames).len() && #[trigger] line_elements(frames)[i] == '<'
                ==> exists|k: int|
                0 <= k < frames.len() && i == #[trigger] line_offset(frames, k) + line_indent(),
    decreases frames.len(),
{
    let all = line_elements(frames);
    assert(frames.take(frames.len() as int) =~= frames);
    if frames.len() == 0 {
    } else {
        let init = frames.drop_last();
        let last = line_element(frames.last());
        let n = init.len() as int;
        lemma_line_elements_shape(init);
        lemma_line_element_shape(frames.last());
        assert(all == line_elements(init) + last);
        assert forall|k: int| 0 <= k <= n implies #[trigger] line_offset(frames, k) == line_offset(
            init,
            k,
        ) by {
            assert(frames.take(k) =~= init.take(k));
        }
        assert(line_offset(frames, n) == line_elements(init).len());
        assert forall|k: int| 0 <= k < frames.len() implies occurs_at(
            all,
            line_element(frames[k]),
            #[trigger] line_offset(frames, k),
        ) by {
            if k < n {
                assert(frames[k] == init[k]);
                assert(occurs_at(line_elements(init), line_element(init[k]), line_offset(init, k)));
                let at = line_offset(init, k);
                let len = line_element(init[k]).len();
                assert(all.subrange(at, at + len) =~= line_elements(init).subrange(at, at + len));
            } else {
                let at = line_elements(init).len() as int;
                assert(all.subrange(at, at + last.len()) =~= last);
            }
        }
        assert forall|j: int, k: int| 0 <= j < k <= frames.len() implies #[trigger] line_offset(
            frames,
            j,
        ) < #[trigger] line_offset(frames, k) by {
            if k <= n {
                assert(line_offset(init, j) < line_offset(init, k));
            } else {
                assert(line_offset(frames, k) == all.len());
                assert(all.len() == line_elements(init).len() + last.len());
                if j < n {
                    assert(line_offset(init, j) < line_offset(init, n));
                }
            }
        }
        assert forall|i: int| 0 <= i < all.len() && #[trigger] all[i] == '<' implies exists|k: int|
            0 <= k < frames.len() && i == #[trigger] line_offset(frames, k) + line_indent() by {
            if i < line_elements(init).len() {
                assert(line_elements(init)[i] == '<');
                let k = choose|k: int|
                    0 <= k < init.len() && i == #[trigger] line_offset(init, k) + line_indent();
                assert(i == line_offset(frames, k) + line_indent());
            } else {
                assert(last[i - line_elements(init).len()] == '<');
                assert(i == line_offset(frames, n) + line_indent());
            }
        }
    }
}

proof fn lemma_head_opens_no_tag(r: ReportView, c: char)
    requires
        c == 'b' || c == 'l',
    ensures
        opens_no_tag(preamble(r) + error_head(r), c),
{
    lemma_preamble_opens_no_tag(r, c);
    lemma_error_head_opens_no_tag(r, c);
    lemma_opens_no_tag_concat(preamble(r), error_head(r), c);
}

/// The document of a report without frames opens neither a backtrace tag
/// nor a line tag.
proof fn lemma_frameless_opens_no_tag(r: ReportView, c: char)
    requires
        r.frames().len() == 0,
        c == 'b' || c == 'l',
    ensures
        opens_no_tag(document(r), c),
{
    lemma_head_opens_no_tag(r, c);
    lemma_closing_opens_no_tag(c);
    let head = preamble(r) + error_head(r);
    lemma_opens_no_tag_concat(head, closing(), c);
    assert(document(r) =~= head + closing());
}

/// The same report always has the same document: the document depends on
/// nothing but the value of the report.
pub proof fn lemma_document_deterministic(a: ErrbitError, b: ErrbitError)
    requires
        a@ == b@,
    ensures
        document(a@) == document(b@),
{
}

/// A report whose backtrace is absent or empty has a document without a
/// backtrace element.
pub proof fn lemma_no_frames_no_backtrace(r: ReportView)
    requires
        r.frames().len() == 0,
    ensures
        forall|i: int| !occurs_at(document(r), "<backtrace>"@, i),
{
    reveal_strlit("<backtrace>");
    lemma_frameless_opens_no_tag(r, 'b');
    assert forall|i: int| !occurs_at(document(r), "<backtrace>"@, i) by {
        if occurs_at(document(r), "<backtrace>"@, i) {
            lemma_occurrence_opens_tag(document(r), "<backtrace>"@, 'b', i);
        }
    }
}

/// A report with frames has a document with one backtrace element, which
/// opens right before the first line element.
pub proof fn lemma_frames_one_backtrace(r: ReportView)
    requires
        r.frames().len() > 0,
    ensures
        forall|i: int|
            occurs_at(document(r), "<backtrace>"@, i) <==> i == lines_start(r) - 12,
{
    reveal_strlit("<backtrace>");
    reveal_strlit("        <backtrace>\n");
    reveal_strlit("        </backtrace>\n");
    let head = preamble(r) + error_head(r);
    let open = "        <backtrace>\n"@;
    let lines = line_elements(r.frames());
    let rest = "        </backtrace>\n"@ + closing();
    let doc = document(r);
    assert(doc =~= head + open + lines + rest);
    lemma_head_opens_no_tag(r, 'b');
    lemma_closing_opens_no_tag('b');
    lemma_opens_no_tag_concat("        </backtrace>\n"@, closing(), 'b');
    lemma_line_elements_shape(r.frames());
    assert(open.subrange(8, 19) =~= "<backtrace>"@);
    assert(occurs_at(open, "<backtrace>"@, 8));
    lemma_occurs_in_middle(head, open, lines + rest, "<backtrace>"@, 8);
    assert(head + open + (lines + rest) =~= doc);
    assert forall|i: int| occurs_at(doc, "<backtrace>"@, i) implies i == lines_start(r) - 12 by {
        lemma_occurrence_opens_tag(doc, "<backtrace>"@, 'b', i);
        if i < head.len() {
            assert(head[i] == '<');
            assert(doc[i + 1] == head[i + 1]);
        } else if i < head.len() + open.len() {
            assert(open[i - head.len()] == '<');
        } else if i < head.len() + open.len() + lines.len() {
            let at = i - head.len() - open.len();
            assert(lines[at] == '<');
            let k = choose|k: int|
                0 <= k < r.frames().len() && at == #[trigger] line_offset(r.frames(), k)
                    + line_indent();
            lemma_line_element_shape(r.frames()[k]);
            let e = line_element(r.frames()[k]);
            let found = lines.subrange(line_offset(r.frames(), k), line_offset(r.frames(), k) + e.len());
            assert(found[13] == lines[at + 1]);
            assert(e.subrange(12, 18)[1] == e[13]);
            reveal_strlit("<line ");
            assert(doc[i + 1] == lines[at + 1]);
        } else {
            let at = i - head.len() - open.len() - lines.len();
            assert(rest[at] == '<');
            assert(doc[i + 1] == rest[at + 1]);
        }
    }
}

/// The document holds one line element for each frame and no other: the
/// element of each frame stands at its position, the positions follow the
/// order of the frames, and a line tag opens nowhere else.
pub proof fn lemma_one_line_per_frame(r: ReportView)
    ensures
        forall|k: int|
            0 <= k < r.frames().len() ==> occurs_at(
                document(r),
                line_element(r.frames()[k]),
                #[trigger] line_position(r, k),
            ),
        forall|j: int, k: int|
            0 <= j < k < r.frames().len() ==> #[trigger] line_position(r, j) < #[trigger] line_position(
                r,
                k,
            ),
        forall|i: int| #[trigger]
            occurs_at(document(r), "<line "@, i) <==> exists|k: int|
                0 <= k < r.frames().len() && i == #[trigger] line_position(r, k) + line_indent(),
{
    reveal_strlit("<line ");
    let doc = document(r);
    let frames = r.frames();
    if frames.len() == 0 {
        lemma_frameless_opens_no_tag(r, 'l');
        assert forall|i: int| !occurs_at(doc, "<line "@, i) by {
            if occurs_at(doc, "<line "@, i) {
                lemma_occurrence_opens_tag(doc, "<line "@, 'l', i);
            }
        }
    } else {
        reveal_strlit("        <backtrace>\n");
        reveal_strlit("        </backtrace>\n");
        let before = preamble(r) + error_head(r) + "        <backtrace>\n"@;
        let lines = line_elements(frames);
        let after = "        </backtrace>\n"@ + closing();
        assert(doc =~= before + lines + after);
        lemma_head_opens_no_tag(r, 'l');
        lemma_opens_no_tag_concat(preamble(r) + error_head(r), "        <backtrace>\n"@, 'l');
        lemma_closing_opens_no_tag('l');
        lemma_opens_no_tag_concat("        </backtrace>\n"@, closing(), 'l');
        lemma_line_elements_shape(frames);
        assert forall|k: int| 0 <= k < frames.len() implies occurs_at(
            doc,
            line_element(frames[k]),
            #[trigger] line_position(r, k),
        ) && occurs_at(doc, "<line "@, line_position(r, k) + line_indent()) by {
            let e = line_element(frames[k]);
            assert(occurs_at(lines, e, line_offset(frames, k)));
            lemma_occurs_in_middle(before, lines, after, e, line_offset(frames, k));
            lemma_line_element_shape(frames[k]);
            lemma_occurs_within(doc, e, line_position(r, k), "<line "@, line_indent());
        }
        assert forall|j: int, k: int| 0 <= j < k < frames.len() implies #[trigger] line_position(
            r,
            j,
        ) < #[trigger] line_position(r, k) by {
            assert(line_offset(frames, j) < line_offset(frames, k));
        }
        assert forall|i: int| #[trigger] occurs_at(doc, "<line "@, i) implies exists|k: int|
            0 <= k < frames.len() && i == #[trigger] line_position(r, k) + line_indent() by {
            lemma_occurrence_opens_tag(doc, "<line "@, 'l', i);
            if i < before.len() {
                assert(before[i] == '<');
                assert(doc[i + 1] == before[i + 1]);
            } else if i < before.len() + lines.len() {
                let at = i - before.len();
                assert(lines[at] == '<');
                let k = choose|k: int|
                    0 <= k < frames.len() && at == #[trigger] line_offset(frames, k)
                        + line_indent();
                assert(i == line_position(r, k) + line_indent());
            } else {
                let at = i - before.len() - lines.len();
                assert(after[at] == '<');
                assert(doc[i + 1] == after[at + 1]);
            }
        }
    }
}

/// The message of a report stands in the document as the text of the
/// message element. Escaped as it is, it cannot be taken for markup, and a
/// reader who decodes it has the message as it was, whatever characters it
/// holds.
pub proof fn lemma_message_survives(r: ReportView)
    ensures
        occurs_at(document(r), message_element(r), message_position(r)),
        message_element(r) == "<message>"@ + escape(r.message) + "</message>\n"@,
        is_escaped(escape(r.message)),
        unescape(escape(r.message)) == r.message,
{
    lemma_escape_is_escaped(r.message);
    lemma_unescape_escape(r.message);
    let before = preamble(r) + "    <error>\n"@ + element("        <class>"@, r.exc_class, "</class>"@);
    let after = backtrace_block(r.frames()) + closing();
    let m = message_element(r);
    assert(document(r) =~= before + m + after);
    assert(m.subrange(0, m.len() as int) =~= m);
    lemma_occurs_in_middle(before, m, after, m, 0);
}

} // verus!
