//! The response formatter: renders the two canonical result shapes
//! (answered / continue) as JSON text, and the human-readable feedback line
//! echoed back to the channel. The JSON grammar emitted here is this
//! bridge's own output contract, stated character for character.

use vstd::prelude::*;
use crate::session::InteractionSession;
use crate::types::{ImageAttachment, ImageModel};

verus! {

/// The lower-case hexadecimal digit for a value below sixteen.
pub open spec fn spec_hex_digit(n: int) -> char {
    if n == 0 {
        '0'
    } else if n == 1 {
        '1'
    } else if n == 2 {
        '2'
    } else if n == 3 {
        '3'
    } else if n == 4 {
        '4'
    } else if n == 5 {
        '5'
    } else if n == 6 {
        '6'
    } else if n == 7 {
        '7'
    } else if n == 8 {
        '8'
    } else if n == 9 {
        '9'
    } else if n == 10 {
        'a'
    } else if n == 11 {
        'b'
    } else if n == 12 {
        'c'
    } else if n == 13 {
        'd'
    } else if n == 14 {
        'e'
    } else {
        'f'
    }
}

/// How one character appears inside a JSON string literal: quote, backslash
/// and the named control characters get a two-character escape, the other
/// control characters a `\u00XX` escape, everything else stands as itself.
pub open spec fn spec_escape_char(c: char) -> Seq<char> {
    if c == '"' {
        seq!['\\', '"']
    } else if c == '\\' {
        seq!['\\', '\\']
    } else if c == '\n' {
        seq!['\\', 'n']
    } else if c == '\r' {
        seq!['\\', 'r']
    } else if c == '\t' {
        seq!['\\', 't']
    } else if (c as int) < 32 {
        seq!['\\', 'u', '0', '0', spec_hex_digit((c as int) / 16), spec_hex_digit((c as int) % 16)]
    } else {
        seq![c]
    }
}

/// A whole string, escaped character for character.
pub open spec fn spec_escape(s: Seq<char>) -> Seq<char>
    decreases s.len(),
{
    if s.len() == 0 {
        Seq::empty()
    } else {
        spec_escape(s.drop_last()) + spec_escape_char(s.last())
    }
}

/// A JSON string literal: the escaped characters between double quotes.
pub open spec fn spec_json_string(s: Seq<char>) -> Seq<char> {
    "\""@ + spec_escape(s) + "\""@
}

/// A JSON string or `null`.
pub open spec fn spec_json_opt_string(o: Option<Seq<char>>) -> Seq<char> {
    match o {
        Some(s) => spec_json_string(s),
        None => "null"@,
    }
}

/// The comma-separated items of an array of JSON strings.
pub open spec fn spec_json_string_items(elems: Seq<Seq<char>>) -> Seq<char>
    decreases elems.len(),
{
    if elems.len() == 0 {
        Seq::empty()
    } else if elems.len() == 1 {
        spec_json_string(elems[0])
    } else {
        spec_json_string_items(elems.drop_last()) + ","@ + spec_json_string(elems.last())
    }
}

/// A JSON array of strings.
pub open spec fn spec_json_string_array(elems: Seq<Seq<char>>) -> Seq<char> {
    "["@ + spec_json_string_items(elems) + "]"@
}

/// One image record as a JSON object.
pub open spec fn spec_json_image(img: ImageModel) -> Seq<char> {
    "{\"data\":"@ + spec_json_string(img.data) + ",\"media_type\":"@ + spec_json_string(
        img.media_type,
    ) + ",\"filename\":"@ + spec_json_opt_string(img.filename) + "}"@
}

/// The comma-separated items of an array of image records.
pub open spec fn spec_json_image_items(imgs: Seq<ImageModel>) -> Seq<char>
    decreases imgs.len(),
{
    if imgs.len() == 0 {
        Seq::empty()
    } else if imgs.len() == 1 {
        spec_json_image(imgs[0])
    } else {
        spec_json_image_items(imgs.drop_last()) + ","@ + spec_json_image(imgs.last())
    }
}

/// A JSON array of image records.
pub open spec fn spec_json_image_array(imgs: Seq<ImageModel>) -> Seq<char> {
    "["@ + spec_json_image_items(imgs) + "]"@
}

/// The hexadecimal digit character for a value below sixteen.
fn hex_digit(n: u32) -> (r: char)
    requires
        n < 16,
    ensures
        r == spec_hex_digit(n as int),
{
    if n == 0 {
        '0'
    } else if n == 1 {
        '1'
    } else if n == 2 {
        '2'
    } else if n == 3 {
        '3'
    } else if n == 4 {
        '4'
    } else if n == 5 {
        '5'
    } else if n == 6 {
        '6'
    } else if n == 7 {
        '7'
    } else if n == 8 {
        '8'
    } else if n == 9 {
        '9'
    } else if n == 10 {
        'a'
    } else if n == 11 {
        'b'
    } else if n == 12 {
        'c'
    } else if n == 13 {
        'd'
    } else if n == 14 {
        'e'
    } else {
        'f'
    }
}

/// Relies on std's String::push: it appends the given character to the end
/// of the string.
pub assume_specification[ String::push ](s: &mut String, ch: char)
    ensures
        final(s)@ == old(s)@.push(ch),
;

/// Escapes a string for inclusion in a JSON string literal.
pub fn escape_json(s: &str) -> (r: String)
    ensures
        r@ == spec_escape(s@),
{
    let n = s.unicode_len();
    let mut out = String::new();
    let mut i: usize = 0;
    proof {
        assert(s@.take(0) =~= Seq::<char>::empty());
    }
    while i < n
        invariant
            i <= n,
            n == s@.len(),
            out@ == spec_escape(s@.take(i as int)),
        decreases n - i,
    {
        let c = s.get_char(i);
        let ghost prev = out@;
        if c == '"' {
            out.push('\\');
            out.push('"');
        } else if c == '\\' {
            out.push('\\');
            out.push('\\');
        } else if c == '\n' {
            out.push('\\');
            out.push('n');
        } else if c == '\r' {
            out.push('\\');
            out.push('r');
        } else if c == '\t' {
            out.push('\\');
            out.push('t');
        } else if (c as u32) < 32 {
            out.push('\\');
            out.push('u');
            out.push('0');
            out.push('0');
            out.push(hex_digit((c as u32) / 16));
            out.push(hex_digit((c as u32) % 16));
        } else {
            out.push(c);
        }
        proof {
            assert(out@ =~= prev + spec_escape_char(c));
            assert(s@.take(i + 1).drop_last() =~= s@.take(i as int));
            assert(s@.take(i + 1).last() == c);
            assert(out@ == spec_escape(s@.take(i + 1)));
        }
        i += 1;
    }
    proof {
        assert(s@.take(n as int) =~= s@);
    }
    out
}

/// A JSON string literal for this text.
pub fn json_string(s: &str) -> (r: String)
    ensures
        r@ == spec_json_string(s@),
{
    let mut out = String::from_str("\"");
    let escaped = escape_json(s);
    out.append(escaped.as_str());
    out.append("\"");
    out
}

/// A JSON string literal or `null`.
pub fn json_opt_string(o: &Option<String>) -> (r: String)
    ensures
        r@ == spec_json_opt_string(o.deep_view()),
{
    match o {
        Some(s) => json_string(s.as_str()),
        None => String::from_str("null"),
    }
}

/// A JSON array of string literals.
pub fn json_string_array(elems: &Vec<String>) -> (r: String)
    ensures
        r@ == spec_json_string_array(elems.deep_view()),
{
    let mut out = String::from_str("[");
    let n = elems.len();
    let mut i: usize = 0;
    proof {
        assert(elems.deep_view().take(0) =~= Seq::<Seq<char>>::empty());
    }
    while i < n
        invariant
            i <= n,
            n == elems.len(),
            out@ == "["@ + spec_json_string_items(elems.deep_view().take(i as int)),
        decreases n - i,
    {
        if i > 0 {
            out.append(",");
        }
        let item = json_string(elems[i].as_str());
        out.append(item.as_str());
        proof {
            let v = elems.deep_view();
            assert(v.take(i + 1).drop_last() =~= v.take(i as int));
            assert(v.take(i + 1).last() == v[i as int]);
            if i == 0 {
                assert(out@ =~= "["@ + spec_json_string_items(v.take(1)));
            } else {
                assert(out@ =~= "["@ + spec_json_string_items(v.take(i + 1)));
            }
        }
        i += 1;
    }
    proof {
        assert(elems.deep_view().take(n as int) =~= elems.deep_view());
    }
    out.append("]");
    out
}

/// A JSON array of image records.
pub fn json_image_array(imgs: &Vec<ImageAttachment>) -> (r: String)
    ensures
        r@ == spec_json_image_array(imgs.deep_view()),
{
    let mut out = String::from_str("[");
    let n = imgs.len();
    let mut i: usize = 0;
    proof {
        assert(imgs.deep_view().take(0) =~= Seq::<ImageModel>::empty());
    }
    while i < n
        invariant
            i <= n,
            n == imgs.len(),
            out@ == "["@ + spec_json_image_items(imgs.deep_view().take(i as int)),
        decreases n - i,
    {
        if i > 0 {
            out.append(",");
        }
        out.append("{\"data\":");
        let data = json_string(imgs[i].data.as_str());
        out.append(data.as_str());
        out.append(",\"media_type\":");
        let media = json_string(imgs[i].media_type.as_str());
        out.append(media.as_str());
        out.append(",\"filename\":");
        let filename = json_opt_string(&imgs[i].filename);
        out.append(filename.as_str());
        out.append("}");
        proof {
            let v = imgs.deep_view();
            assert(v.take(i + 1).drop_last() =~= v.take(i as int));
            assert(v.take(i + 1).last() == v[i as int]);
            if i == 0 {
                assert(out@ =~= "["@ + spec_json_image_items(v.take(1)));
            } else {
                assert(out@ =~= "["@ + spec_json_image_items(v.take(i + 1)));
            }
        }
        i += 1;
    }
    proof {
        assert(imgs.deep_view().take(n as int) =~= imgs.deep_view());
    }
    out.append("]");
    out
}

/// The structured response record as one JSON object: free text (or null),
/// the selected labels, the image list, and metadata naming the moment, the
/// originating request and the channel kind.
pub open spec fn spec_response_json(
    user_input: Option<Seq<char>>,
    selected: Seq<Seq<char>>,
    images: Seq<ImageModel>,
    timestamp: Seq<char>,
    request_id: Option<Seq<char>>,
    source: Seq<char>,
) -> Seq<char> {
    "{\"user_input\":"@ + spec_json_opt_string(user_input) + ",\"selected_options\":"@
        + spec_json_string_array(selected) + ",\"images\":"@ + spec_json_image_array(images)
        + ",\"metadata\":{\"timestamp\":"@ + spec_json_string(timestamp) + ",\"request_id\":"@
        + spec_json_opt_string(request_id) + ",\"source\":"@ + spec_json_string(source) + "}}"@
}

/// Renders the structured response record, timestamp supplied by the caller.
pub fn build_mcp_response(
    user_input: Option<String>,
    selected_options: Vec<String>,
    images: Vec<ImageAttachment>,
    request_id: Option<String>,
    source: &str,
    timestamp: &str,
) -> (r: String)
    ensures
        r@ == spec_response_json(
            user_input.deep_view(),
            selected_options.deep_view(),
            images.deep_view(),
            timestamp@,
            request_id.deep_view(),
            source@,
        ),
{
    let mut out = String::from_str("{\"user_input\":");
    let ui = json_opt_string(&user_input);
    out.append(ui.as_str());
    out.append(",\"selected_options\":");
    let sel = json_string_array(&selected_options);
    out.append(sel.as_str());
    out.append(",\"images\":");
    let imgs = json_image_array(&images);
    out.append(imgs.as_str());
    out.append(",\"metadata\":{\"timestamp\":");
    let ts = json_string(timestamp);
    out.append(ts.as_str());
    out.append(",\"request_id\":");
    let rid = json_opt_string(&request_id);
    out.append(rid.as_str());
    out.append(",\"source\":");
    let src = json_string(source);
    out.append(src.as_str());
    out.append("}}");
    proof {
        assert(out@ =~= spec_response_json(
            user_input.deep_view(),
            selected_options.deep_view(),
            images.deep_view(),
            timestamp@,
            request_id.deep_view(),
            source@,
        ));
    }
    out
}

/// Relies on chrono's `Utc::now().to_rfc3339()` for the moment of the call
/// in RFC 3339 form. The result depends on the clock, so nothing is claimed
/// of its value.
#[verifier::external_body]
fn now_rfc3339() -> String {
    chrono::Utc::now().to_rfc3339()
}

/// Renders the answered-result record for a send commit, stamped with the
/// moment of the call.
pub fn build_send_response(
    user_input: Option<String>,
    selected_options: Vec<String>,
    images: Vec<ImageAttachment>,
    request_id: Option<String>,
    source: &str,
) -> (r: String)
    ensures
        exists|ts: Seq<char>|
            r@ == spec_response_json(
                user_input.deep_view(),
                selected_options.deep_view(),
                images.deep_view(),
                ts,
                request_id.deep_view(),
                source@,
            ),
{
    let stamp = now_rfc3339();
    let r = build_mcp_response(
        user_input,
        selected_options,
        images,
        request_id,
        source,
        stamp.as_str(),
    );
    proof {
        assert(r@ == spec_response_json(
            user_input.deep_view(),
            selected_options.deep_view(),
            images.deep_view(),
            stamp@,
            request_id.deep_view(),
            source@,
        ));
    }
    r
}

/// Renders the continue-result record: the free text is always the
/// configured continue prompt and the selected list is always empty,
/// whatever was toggled or typed before the continue commit.
pub fn build_continue_response(
    continue_prompt: &str,
    request_id: Option<String>,
    source: &str,
) -> (r: String)
    ensures
        exists|ts: Seq<char>|
            r@ == spec_response_json(
                Some(continue_prompt@),
                Seq::<Seq<char>>::empty(),
                Seq::<ImageModel>::empty(),
                ts,
                request_id.deep_view(),
                source@,
            ),
{
    let stamp = now_rfc3339();
    let empty_options: Vec<String> = Vec::new();
    let empty_images: Vec<ImageAttachment> = Vec::new();
    proof {
        assert(empty_options.deep_view() =~= Seq::<Seq<char>>::empty());
        assert(empty_images.deep_view() =~= Seq::<ImageModel>::empty());
    }
    let r = build_mcp_response(
        Some(String::from_str(continue_prompt)),
        empty_options,
        empty_images,
        request_id,
        source,
        stamp.as_str(),
    );
    proof {
        assert(r@ == spec_response_json(
            Some(continue_prompt@),
            Seq::<Seq<char>>::empty(),
            Seq::<ImageModel>::empty(),
            stamp@,
            request_id.deep_view(),
            source@,
        ));
    }
    r
}

/// The continue prompt used when the configuration overrides none.
pub open spec fn spec_default_continue_prompt() -> Seq<char> {
    "Please continue with best practices."@
}

/// The default continue prompt.
pub fn default_continue_prompt() -> (r: &'static str)
    ensures
        r@ == spec_default_continue_prompt(),
{
    "Please continue with best practices."
}

/// The free-text field of an answered result: present only when the buffer
/// holds something.
pub open spec fn spec_user_input_field(text: Seq<char>) -> Option<Seq<char>> {
    if text.len() == 0 {
        None
    } else {
        Some(text)
    }
}

/// Renders the result record for a completed session. The continue path
/// discards the selection and the typed text — continue means "skip the
/// interaction", not "confirm it" — while the send path reports the
/// selected labels and the text (absent when empty). Images never travel
/// on this channel.
pub fn commit_response(
    session: &InteractionSession,
    continued: bool,
    continue_prompt: &str,
    source: &str,
) -> (r: String)
    ensures
        continued ==> exists|ts: Seq<char>|
            r@ == spec_response_json(
                Some(continue_prompt@),
                Seq::<Seq<char>>::empty(),
                Seq::<ImageModel>::empty(),
                ts,
                Some(session@.request_id),
                source@,
            ),
        !continued ==> exists|ts: Seq<char>|
            r@ == spec_response_json(
                spec_user_input_field(session@.user_input),
                session@.selected,
                Seq::<ImageModel>::empty(),
                ts,
                Some(session@.request_id),
                source@,
            ),
{
    if continued {
        let request_id = Some(session.request_id.clone());
        proof {
            assert(request_id.deep_view() == Some(session@.request_id));
        }
        build_continue_response(continue_prompt, request_id, source)
    } else {
        let user_input = if session.user_input.unicode_len() == 0 {
            None
        } else {
            Some(session.user_input.clone())
        };
        proof {
            assert(user_input.deep_view() == spec_user_input_field(session@.user_input));
        }
        let request_id = Some(session.request_id.clone());
        proof {
            assert(request_id.deep_view() == Some(session@.request_id));
        }
        let selected = session.get_selected_options();
        let empty_images: Vec<ImageAttachment> = Vec::new();
        proof {
            assert(empty_images.deep_view() =~= Seq::<ImageModel>::empty());
        }
        build_send_response(user_input, selected, empty_images, request_id, source)
    }
}

/// The human-readable feedback line: both parts when selection and text are
/// present, one of them alone otherwise, and a fixed phrase on the continue
/// path (whatever was selected or typed).
pub open spec fn spec_joined(elems: Seq<Seq<char>>, sep: Seq<char>) -> Seq<char>
    decreases elems.len(),
{
    if elems.len() == 0 {
        Seq::empty()
    } else if elems.len() == 1 {
        elems[0]
    } else {
        spec_joined(elems.drop_last(), sep) + sep + elems.last()
    }
}

/// The feedback line's content.
pub open spec fn spec_feedback(selected: Seq<Seq<char>>, text: Seq<char>, is_continue: bool) -> Seq<
    char,
> {
    if is_continue {
        "Continuing."@
    } else if selected.len() > 0 && text.len() > 0 {
        spec_joined(selected, ", "@) + " | "@ + text
    } else if selected.len() > 0 {
        spec_joined(selected, ", "@)
    } else {
        text
    }
}

/// Joins labels with a separator.
fn join_labels(elems: &Vec<String>, sep: &str) -> (r: String)
    ensures
        r@ == spec_joined(elems.deep_view(), sep@),
{
    let mut out = String::new();
    let n = elems.len();
    let mut i: usize = 0;
    proof {
        assert(elems.deep_view().take(0) =~= Seq::<Seq<char>>::empty());
        assert(spec_joined(elems.deep_view().take(0), sep@) =~= Seq::<char>::empty());
    }
    while i < n
        invariant
            i <= n,
            n == elems.len(),
            out@ == spec_joined(elems.deep_view().take(i as int), sep@),
        decreases n - i,
    {
        if i > 0 {
            out.append(sep);
        }
        out.append(elems[i].as_str());
        proof {
            let v = elems.deep_view();
            assert(v.take(i + 1).drop_last() =~= v.take(i as int));
            assert(v.take(i + 1).last() == v[i as int]);
            if i == 0 {
                assert(out@ =~= spec_joined(v.take(1), sep@));
            } else {
                assert(out@ =~= spec_joined(v.take(i + 1), sep@));
            }
        }
        i += 1;
    }
    proof {
        assert(elems.deep_view().take(n as int) =~= elems.deep_view());
    }
    out
}

/// Builds the feedback line summarizing what was recorded.
pub fn build_feedback_message(selected: &Vec<String>, user_input: &str, is_continue: bool) -> (r:
    String)
    ensures
        r@ == spec_feedback(selected.deep_view(), user_input@, is_continue),
{
    if is_continue {
        String::from_str("Continuing.")
    } else {
        let has_selection = selected.len() > 0;
        let has_text = user_input.unicode_len() > 0;
        proof {
            assert(selected.deep_view().len() == selected.len());
        }
        if has_selection && has_text {
            let mut out = join_labels(selected, ", ");
            out.append(" | ");
            out.append(user_input);
            out
        } else if has_selection {
            join_labels(selected, ", ")
        } else {
            String::from_str(user_input)
        }
    }
}

} // verus!
