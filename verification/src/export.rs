//! Chat exports: the HTML document of a channel's history and the text log
//! of the user's own messages in a guild.
use vstd::prelude::*;
use crate::json::{JsonValue, field, field2, str_of, array_of, str_or, field_str_or, field_u64, u64_of};
use crate::text::{append_str, append_chars};

verus! {

/// Options of an export, as the user interface sends them.
pub struct ExportOptions {
    pub channel_ids: Vec<String>,
    /// "sent", "received", or "both".
    pub direction: String,
    pub include_attachments: bool,
    /// "html" or "raw".
    pub format: String,
    pub output_path: String,
}

/// Progress of an export, as the user interface receives it.
pub struct ExportProgress {
    pub current: usize,
    pub total: usize,
    pub channel_id: String,
    pub status: String,
    pub processed_count: usize,
}

/// The opening of an exported HTML document, with its style sheet.
pub const HTML_HEADER: &'static str = "<html><head><style>
            body { font-family: sans-serif; background: #313338; color: #dbdee1; padding: 20px; }
            .message { margin-bottom: 15px; padding: 10px; border-radius: 8px; background: #2b2d31; }
            .author { font-weight: bold; color: #f2f3f5; margin-right: 10px; }
            .timestamp { font-size: 0.8em; color: #949ba4; }
            .content { margin-top: 5px; white-space: pre-wrap; }
            .attachment { margin-top: 10px; padding: 5px; border: 1px solid #4e5058; border-radius: 4px; display: inline-block; }
        </style></head><body>";

/// The closing of an exported HTML document.
pub const HTML_FOOTER: &'static str = "</body></html>";

/// The HTML of a message's attachments.
pub open spec fn attachments_html(atts: Seq<JsonValue>) -> Seq<char>
    decreases atts.len(),
{
    if atts.len() == 0 {
        Seq::empty()
    } else {
        attachments_html(atts.drop_last()) + "<div class='attachment'>Attachment: "@ + str_or(
            atts.last(),
            "filename"@,
            "file"@,
        ) + "</div>"@
    }
}

/// The HTML of one message: author, time and content, then its attachments
/// when they are included.
pub open spec fn message_html_of(msg: JsonValue, include_attachments: bool) -> Seq<char> {
    let author = match str_of(field2(msg, "author"@, "username"@)) {
        Some(a) => a,
        None => "Unknown"@,
    };
    let head = "<div class='message'><span class='author'>"@ + author
        + "</span><span class='timestamp'>"@ + str_or(msg, "timestamp"@, ""@)
        + "</span><div class='content'>"@ + str_or(msg, "content"@, ""@) + "</div>"@;
    let atts = if include_attachments {
        match array_of(field(msg, "attachments"@)) {
            Some(a) => attachments_html(a),
            None => Seq::empty(),
        }
    } else {
        Seq::empty()
    };
    head + atts + "</div>"@
}

proof fn lemma_attachments_single(a: JsonValue)
    ensures
        attachments_html(seq![a]) == "<div class='attachment'>Attachment: "@ + str_or(a, "filename"@, "file"@)
            + "</div>"@,
{
    let one = seq![a];
    assert(one.drop_last() =~= Seq::<JsonValue>::empty());
    assert(one.last() == a);
    let name = str_or(a, "filename"@, "file"@);
    assert(attachments_html(one) == attachments_html(Seq::<JsonValue>::empty())
        + "<div class='attachment'>Attachment: "@ + name + "</div>"@);
    assert(Seq::<char>::empty() + "<div class='attachment'>Attachment: "@ + name + "</div>"@
        =~= "<div class='attachment'>Attachment: "@ + name + "</div>"@);
}

proof fn lemma_attachments_concat(xs: Seq<JsonValue>, ys: Seq<JsonValue>)
    ensures
        attachments_html(xs + ys) == attachments_html(xs) + attachments_html(ys),
    decreases ys.len(),
{
    if ys.len() == 0 {
        assert(xs + ys =~= xs);
        assert(attachments_html(xs) + Seq::<char>::empty() =~= attachments_html(xs));
    } else {
        lemma_attachments_concat(xs, ys.drop_last());
        assert((xs + ys).drop_last() =~= xs + ys.drop_last());
        assert((xs + ys).last() == ys.last());
        let p = "<div class='attachment'>Attachment: "@;
        let n = str_or(ys.last(), "filename"@, "file"@);
        let q = "</div>"@;
        let hx = attachments_html(xs);
        let hy = attachments_html(ys.drop_last());
        assert(attachments_html(xs + ys) == (hx + hy) + p + n + q);
        assert(attachments_html(ys) == hy + p + n + q);
        assert((hx + hy) + p + n + q =~= hx + (hy + p + n + q));
    }
}

/// The attachments' HTML holds one attachment block per attachment, in
/// order: one attachment gives exactly its block, and the HTML of two lists
/// one after the other is the HTML of the first followed by that of the
/// second.
pub proof fn lemma_attachments_html_blocks(a: JsonValue, xs: Seq<JsonValue>, ys: Seq<JsonValue>)
    ensures
        attachments_html(seq![a]) == "<div class='attachment'>Attachment: "@ + str_or(a, "filename"@, "file"@)
            + "</div>"@,
        attachments_html(xs + ys) == attachments_html(xs) + attachments_html(ys),
{
    lemma_attachments_single(a);
    lemma_attachments_concat(xs, ys);
}

/// A message exported with its attachments is the one exported without
/// them, with its attachments' HTML put before the closing `</div>`.
pub proof fn lemma_message_html_attachments(msg: JsonValue, atts: Seq<JsonValue>)
    requires
        array_of(field(msg, "attachments"@)) == Some(atts),
    ensures
        ({
            let bare = message_html_of(msg, false);
            message_html_of(msg, true) == bare.take(bare.len() - 6) + attachments_html(atts) + "</div>"@
        }),
{
    reveal_strlit("</div>");
    let bare = message_html_of(msg, false);
    let author = match str_of(field2(msg, "author"@, "username"@)) {
        Some(a) => a,
        None => "Unknown"@,
    };
    let head = "<div class='message'><span class='author'>"@ + author + "</span><span class='timestamp'>"@
        + str_or(msg, "timestamp"@, ""@) + "</span><div class='content'>"@ + str_or(msg, "content"@, ""@)
        + "</div>"@;
    assert(bare =~= head + Seq::<char>::empty() + "</div>"@);
    assert(bare.take(bare.len() - 6) =~= head);
}

fn append_attachments(s: &mut String, atts: &Vec<JsonValue>)
    ensures
        final(s)@ == old(s)@ + attachments_html(atts@),
{
    let ghost start = s@;
    let mut i: usize = 0;
    assert(atts@.take(0) == Seq::<JsonValue>::empty());
    while i < atts.len()
        invariant
            i <= atts@.len(),
            s@ == start + attachments_html(atts@.take(i as int)),
        decreases atts@.len() - i,
    {
        proof {
            assert(atts@.take(i + 1).drop_last() == atts@.take(i as int));
            assert(atts@.take(i + 1).last() == atts@[i as int]);
        }
        let name = field_str_or(&atts[i], "filename", "file");
        append_str(s, "<div class='attachment'>Attachment: ");
        append_chars(s, name.as_slice());
        append_str(s, "</div>");
        i += 1;
    }
    assert(atts@.take(i as int) == atts@);
}

/// The HTML of one message.
pub fn message_html(msg: &JsonValue, include_attachments: bool) -> (r: String)
    ensures
        r@ == message_html_of(*msg, include_attachments),
{
    let author = match crate::json::field2_str(msg, "author", "username") {
        Some(a) => a,
        None => crate::text::chars_of("Unknown"),
    };
    let ts = field_str_or(msg, "timestamp", "");
    let content = field_str_or(msg, "content", "");
    let mut piece = String::from_str("<div class='message'><span class='author'>");
    append_chars(&mut piece, author.as_slice());
    append_str(&mut piece, "</span><span class='timestamp'>");
    append_chars(&mut piece, ts.as_slice());
    append_str(&mut piece, "</span><div class='content'>");
    append_chars(&mut piece, content.as_slice());
    append_str(&mut piece, "</div>");
    let ghost head = piece@;
    let mut atts_html = String::new();
    if include_attachments {
        match msg.get("attachments") {
            Some(a) => match a.as_array() {
                Some(atts) => {
                    append_attachments(&mut atts_html, atts);
                    assert(atts_html@ =~= attachments_html(atts@));
                },
                None => {},
            },
            None => {},
        }
    }
    append_str(&mut piece, atts_html.as_str());
    append_str(&mut piece, "</div>");
    piece
}

/// Appends the HTML of one message to a document.
pub fn append_message_html(html: &mut String, msg: &JsonValue, include_attachments: bool)
    ensures
        final(html)@ == old(html)@ + message_html_of(*msg, include_attachments),
{
    let piece = message_html(msg, include_attachments);
    append_str(html, piece.as_str());
}

/// The line of the guild archive for a message by the user in a channel.
pub open spec fn archive_line_of(msg: JsonValue, channel_name: Seq<char>) -> Seq<char> {
    "["@ + str_or(msg, "timestamp"@, ""@) + "] [#"@ + channel_name + "]: "@ + str_or(
        msg,
        "content"@,
        ""@,
    ) + "\n"@
}

/// Appends a message's archive line to the log when the user wrote it.
pub fn append_archive_line(log: &mut String, msg: &JsonValue, channel_name: &str, user_id: &str)
    ensures
        str_of(field2(*msg, "author"@, "id"@)) == Some(user_id@) ==> final(log)@ == old(log)@
            + archive_line_of(*msg, channel_name@),
        str_of(field2(*msg, "author"@, "id"@)) != Some(user_id@) ==> final(log)@ == old(log)@,
{
    let is_user = match crate::json::field2_str(msg, "author", "id") {
        Some(a) => crate::text::chars_eq_str(a.as_slice(), user_id),
        None => false,
    };
    if is_user {
        let ts = field_str_or(msg, "timestamp", "");
        let content = field_str_or(msg, "content", "");
        let mut line = String::from_str("[");
        append_chars(&mut line, ts.as_slice());
        append_str(&mut line, "] [#");
        append_str(&mut line, channel_name);
        append_str(&mut line, "]: ");
        append_chars(&mut line, content.as_slice());
        append_str(&mut line, "\n");
        append_str(log, line.as_str());
    }
}

/// The type of a channel (0 when it has none).
pub open spec fn channel_type_of(channel: JsonValue) -> u64 {
    match u64_of(field(channel, "type"@)) {
        Some(t) => t,
        None => 0,
    }
}

/// Whether the guild archive reads a channel: text (0) and voice (2) channels.
pub fn archives_channel(channel: &JsonValue) -> (r: bool)
    ensures
        r == (channel_type_of(*channel) == 0 || channel_type_of(*channel) == 2),
{
    let t = match field_u64(channel, "type") {
        Some(t) => t,
        None => 0,
    };
    t == 0 || t == 2
}

} // verus!
