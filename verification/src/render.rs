//! Texts that tools give back to the model.

use crate::text;
use crate::text::Failure;
use vstd::prelude::*;

verus! {

/// `text` as it is where it is empty or ends with a line break, and else with one.
pub open spec fn line_ended(text: Seq<char>) -> Seq<char> {
    if text.len() > 0 && !text::ends(text, "\n"@) {
        text + "\n"@
    } else {
        text
    }
}

/// Appends the identities of produced objects to a text, each on a line of its own.
/// The text itself stays as it is.
pub fn append_object_ids(text: &mut String, object_ids: &Vec<String>)
    ensures
        final(text)@ == if object_ids@.len() == 0 {
            old(text)@
        } else {
            line_ended(old(text)@) + text::joined(object_ids.deep_view(), "\n"@)
        },
{
    if object_ids.len() == 0 {
        return ;
    }
    if !text.as_str().is_empty() && !text::ends_with(text.as_str(), "\n") {
        text.append("\n");
    }
    text.append(text::join(object_ids, "\n").as_str());
}

/// Whatever objects a tool produced, its text comes first and unchanged.
pub proof fn produced_objects_follow_the_exact_text(text: Seq<char>, object_ids: Seq<Seq<char>>)
    ensures
        text::begins(line_ended(text) + text::joined(object_ids, "\n"@), text),
{
    let all = line_ended(text) + text::joined(object_ids, "\n"@);
    assert(all.subrange(0, text.len() as int) =~= text);
}

/// Seconds with three decimals, as `f64` arithmetic and formatting round them.
pub uninterp spec fn seconds_text(seconds: u64, nanos: u32) -> Seq<char>;

/// `Duration::as_secs_f64` in `{:.3}` format.
#[verifier::external_body]
fn render_seconds(seconds: u64, nanos: u32) -> (result: String)
    requires
        nanos < 1_000_000_000,
    ensures
        result@ == seconds_text(seconds, nanos),
{
    format!("{:.3}", std::time::Duration::new(seconds, nanos).as_secs_f64())
}

/// How long a tool ran.
#[derive(Clone, Copy, Debug, PartialEq, Eq)]
pub struct Elapsed {
    pub seconds: u64,
    pub nanos: u32,
}

impl Elapsed {
    /// Less than a second of nanoseconds.
    pub open spec fn well_formed(self) -> bool {
        self.nanos < 1_000_000_000
    }

    /// More than three seconds.
    pub open spec fn slow(self) -> bool {
        self.seconds > 3 || self.seconds == 3 && self.nanos > 0
    }
}

/// A tool result with its duration, of which `rendered` is the text in seconds.
pub open spec fn with_duration(text: Seq<char>, rendered: Seq<char>) -> Seq<char> {
    line_ended(text) + ("[tool duration: "@ + rendered + "s]"@)
}

/// Appends a duration, of which `rendered` is the text in seconds, on a line of its
/// own.
pub fn append_duration(text: &mut String, rendered: &str)
    ensures
        final(text)@ == with_duration(old(text)@, rendered@),
{
    if !text.as_str().is_empty() && !text::ends_with(text.as_str(), "\n") {
        text.append("\n");
    }
    let mut note = "[tool duration: ".to_owned();
    note.append(rendered);
    note.append("s]");
    text.append(note.as_str());
}

/// A tool result with its duration, where the tool was slow.
pub open spec fn timed(text: Seq<char>, elapsed: Elapsed) -> Seq<char> {
    if elapsed.slow() {
        with_duration(text, seconds_text(elapsed.seconds, elapsed.nanos))
    } else {
        text
    }
}

/// Appends the duration of a tool that ran for more than three seconds.
pub fn append_slow_tool_duration(text: &mut String, elapsed: Elapsed)
    requires
        elapsed.well_formed(),
    ensures
        final(text)@ == timed(old(text)@, elapsed),
{
    if elapsed.seconds < 3 || (elapsed.seconds == 3 && elapsed.nanos == 0) {
        return ;
    }
    append_duration(text, render_seconds(elapsed.seconds, elapsed.nanos).as_str());
}

/// A tool result for the provider, with the current context status at its end.
pub open spec fn footed(result: Seq<char>, footer: Seq<char>) -> Seq<char> {
    if result.len() == 0 {
        footer
    } else {
        result + "\n\n"@ + footer
    }
}

/// A tool result for the provider, with the current context status at its end.
pub fn provider_tool_result_with_context_footer(footer: &str, result: &str) -> (text: String)
    ensures
        text@ == footed(result@, footer@),
{
    if result.is_empty() {
        footer.to_owned()
    } else {
        let mut text = result.to_owned();
        text.append("\n\n");
        text.append(footer);
        text
    }
}

/// One page that a search found.
#[derive(Debug)]
pub struct WebSource {
    pub title: String,
    pub url: String,
}

/// The line of one source.
pub open spec fn source_line(source: WebSource) -> Seq<char> {
    if text::blank(source.title@) || source.title@ == source.url@ {
        "\n- "@ + source.url@
    } else {
        "\n- "@ + source.title@ + ": "@ + source.url@
    }
}

/// The lines of the sources, in order.
pub open spec fn source_lines(sources: Seq<WebSource>) -> Seq<char>
    decreases sources.len(),
{
    if sources.len() == 0 {
        Seq::empty()
    } else {
        source_lines(sources.drop_last()) + source_line(sources.last())
    }
}

/// The answer of a search, with its sources.
pub open spec fn search_text(answer: Seq<char>, sources: Seq<WebSource>) -> Seq<char> {
    if sources.len() == 0 {
        answer
    } else {
        answer + ("\n\nSources:"@ + source_lines(sources))
    }
}

/// The answer of a search, with its sources.
pub fn render_web_search_result(answer: &str, sources: &Vec<WebSource>) -> (result: String)
    ensures
        result@ == search_text(answer@, sources@),
{
    if sources.len() == 0 {
        return answer.to_owned();
    }
    let mut lines = String::new();
    let mut i: usize = 0;
    while i < sources.len()
        invariant
            i <= sources.len(),
            lines@ == source_lines(sources@.take(i as int)),
        decreases sources.len() - i,
    {
        assert(sources@.take(i + 1).drop_last() =~= sources@.take(i as int));
        let source = &sources[i];
        let mut line = "\n- ".to_owned();
        if text::is_blank(source.title.as_str()) || *source.title.as_str()
            == *source.url.as_str() {
            line.append(source.url.as_str());
        } else {
            line.append(source.title.as_str());
            line.append(": ");
            line.append(source.url.as_str());
        }
        lines.append(line.as_str());
        i = i + 1;
    }
    assert(sources@.take(sources.len() as int) =~= sources@);
    let mut tail = "\n\nSources:".to_owned();
    tail.append(lines.as_str());
    let mut result = answer.to_owned();
    result.append(tail.as_str());
    result
}

/// A fetched page.
#[derive(Debug)]
pub struct WebPage {
    pub url: String,
    pub title: Option<String>,
    pub content_type: String,
    pub content: String,
    pub truncated: bool,
}

/// A fetched page as plain text.
pub open spec fn page_text(page: WebPage) -> Seq<char> {
    let address = "Source URL: "@ + page.url@;
    let headed = match page.title {
        Some(title) => if text::blank(title@) {
            address
        } else {
            address + "\nTitle: "@ + title@
        },
        None => address,
    };
    let typed = headed + "\nContent type: "@ + page.content_type@;
    let noted = if page.truncated {
        typed + "\nThe returned page text was truncated."@
    } else {
        typed
    };
    noted + "\n\n"@ + page.content@
}

/// A fetched page as plain text.
pub fn render_web_fetch_result(page: &WebPage) -> (result: String)
    ensures
        result@ == page_text(*page),
{
    let mut result = "Source URL: ".to_owned();
    result.append(page.url.as_str());
    if let Some(title) = &page.title {
        if !text::is_blank(title.as_str()) {
            result.append("\nTitle: ");
            result.append(title.as_str());
        }
    }
    result.append("\nContent type: ");
    result.append(page.content_type.as_str());
    if page.truncated {
        result.append("\nThe returned page text was truncated.");
    }
    result.append("\n\n");
    result.append(page.content.as_str());
    result
}

/// An annotation of media.
#[derive(Debug)]
pub struct Annotation {
    pub complete: bool,
    pub model: String,
    pub text: String,
    pub incomplete_reason: Option<String>,
}

/// The heading of a result on an object.
pub open spec fn object_heading(
    what: Seq<char>,
    object_id: Seq<char>,
    file_name: Seq<char>,
    content_type: Seq<char>,
    model: Seq<char>,
    status: Seq<char>,
) -> Seq<char> {
    what + object_id + "\nFile: "@ + file_name + "\nContent type: "@ + content_type + "\nModel: "@
        + model + "\nStatus: "@ + status
}

fn render_object_heading(
    what: &str,
    object_id: &str,
    file_name: &str,
    content_type: &str,
    model: &str,
    status: &str,
) -> (result: String)
    ensures
        result@ == object_heading(
            what@,
            object_id@,
            file_name@,
            content_type@,
            model@,
            status@,
        ),
{
    let mut result = what.to_owned();
    result.append(object_id);
    result.append("\nFile: ");
    result.append(file_name);
    result.append("\nContent type: ");
    result.append(content_type);
    result.append("\nModel: ");
    result.append(model);
    result.append("\nStatus: ");
    result.append(status);
    result
}

/// The annotation of an object as plain text; one without text is refused.
pub open spec fn annotation_text(
    object_id: Seq<char>,
    file_name: Seq<char>,
    content_type: Seq<char>,
    annotation: Annotation,
) -> Result<Seq<char>, Seq<char>> {
    if text::blank(annotation.text@) {
        Err("media annotation response has no text"@)
    } else {
        let heading = object_heading(
            "Annotation for "@,
            object_id,
            file_name,
            content_type,
            annotation.model@,
            if annotation.complete {
                "complete"@
            } else {
                "incomplete"@
            },
        );
        let explained = match annotation.incomplete_reason {
            Some(reason) => if text::blank(reason@) {
                heading
            } else {
                heading + "\nIncomplete reason: "@ + reason@
            },
            None => heading,
        };
        Ok(explained + "\n\n"@ + annotation.text@)
    }
}

/// The annotation of an object as plain text.
pub fn render_media_annotation_result(
    object_id: &str,
    file_name: &str,
    content_type: &str,
    annotation: &Annotation,
) -> (result: Result<String, Failure>)
    ensures
        text::seen(result) == annotation_text(object_id@, file_name@, content_type@, *annotation),
{
    if text::is_blank(annotation.text.as_str()) {
        return Err(Failure::fixed("media annotation response has no text"));
    }
    let status = if annotation.complete { "complete" } else { "incomplete" };
    let mut result = render_object_heading(
        "Annotation for ",
        object_id,
        file_name,
        content_type,
        annotation.model.as_str(),
        status,
    );
    if let Some(reason) = &annotation.incomplete_reason {
        if !text::is_blank(reason.as_str()) {
            result.append("\nIncomplete reason: ");
            result.append(reason.as_str());
        }
    }
    result.append("\n\n");
    result.append(annotation.text.as_str());
    Ok(result)
}

/// The transcription of an object as plain text; one without text is refused.
pub open spec fn transcription_text(
    object_id: Seq<char>,
    file_name: Seq<char>,
    content_type: Seq<char>,
    model: Seq<char>,
    spoken: Seq<char>,
) -> Result<Seq<char>, Seq<char>> {
    if text::blank(spoken) {
        Err("audio transcription response has no text"@)
    } else {
        Ok(
            object_heading(
                "Transcription for "@,
                object_id,
                file_name,
                content_type,
                model,
                "complete"@,
            ) + "\n\n"@ + spoken,
        )
    }
}

/// The transcription of an object as plain text.
pub fn render_audio_transcription_result(
    object_id: &str,
    file_name: &str,
    content_type: &str,
    model: &str,
    spoken: &str,
) -> (result: Result<String, Failure>)
    ensures
        text::seen(result) == transcription_text(
            object_id@,
            file_name@,
            content_type@,
            model@,
            spoken@,
        ),
{
    if text::is_blank(spoken) {
        return Err(Failure::fixed("audio transcription response has no text"));
    }
    let mut result = render_object_heading(
        "Transcription for ",
        object_id,
        file_name,
        content_type,
        model,
        "complete",
    );
    result.append("\n\n");
    result.append(spoken);
    Ok(result)
}

/// The text of a document.
#[derive(Debug)]
pub struct Extraction {
    pub format: String,
    pub text: String,
    pub characters: u64,
    pub truncated: bool,
}

/// The text of a document, under its description.
pub open spec fn extraction_text(
    object_id: Seq<char>,
    file_name: Seq<char>,
    extraction: Extraction,
) -> Seq<char> {
    "Extracted text for "@ + object_id + "\nFile: "@ + file_name + "\nFormat: "@
        + extraction.format@ + "\nCharacters: "@ + text::digits(extraction.characters as nat)
        + "\nTruncated: "@ + (if extraction.truncated {
        "true"@
    } else {
        "false"@
    }) + "\n\n"@ + extraction.text@
}

/// The text of a document, under its description.
pub fn render_document_extraction_result(
    object_id: &str,
    file_name: &str,
    extraction: &Extraction,
) -> (result: String)
    ensures
        result@ == extraction_text(object_id@, file_name@, *extraction),
{
    let mut result = "Extracted text for ".to_owned();
    result.append(object_id);
    result.append("\nFile: ");
    result.append(file_name);
    result.append("\nFormat: ");
    result.append(extraction.format.as_str());
    result.append("\nCharacters: ");
    result.append(text::decimal(extraction.characters as u128).as_str());
    result.append("\nTruncated: ");
    result.append(if extraction.truncated { "true" } else { "false" });
    result.append("\n\n");
    result.append(extraction.text.as_str());
    result
}

/// The report of a generated image.
pub open spec fn generated_text(
    object_id: Seq<char>,
    file_name: Seq<char>,
    content_type: Seq<char>,
    size: nat,
    model: Seq<char>,
) -> Seq<char> {
    "Generated image.\nObject: "@ + object_id + "\nFile: "@ + file_name + "\nContent type: "@
        + content_type + "\nSize: "@ + text::digits(size) + " bytes\nModel: "@ + model
        + "\nUse EmitObject with "@ + object_id + " to deliver it."@
}

/// The report of a generated image.
pub fn render_generated_image(
    object_id: &str,
    file_name: &str,
    content_type: &str,
    size: usize,
    model: &str,
) -> (result: String)
    ensures
        result@ == generated_text(object_id@, file_name@, content_type@, size as nat, model@),
{
    let mut result = "Generated image.\nObject: ".to_owned();
    result.append(object_id);
    result.append("\nFile: ");
    result.append(file_name);
    result.append("\nContent type: ");
    result.append(content_type);
    result.append("\nSize: ");
    result.append(text::decimal(size as u128).as_str());
    result.append(" bytes\nModel: ");
    result.append(model);
    result.append("\nUse EmitObject with ");
    result.append(object_id);
    result.append(" to deliver it.");
    result
}

/// The lesser of `n` and the greatest 64-bit number.
pub open spec fn capped(n: int) -> int {
    if n > u64::MAX {
        u64::MAX as int
    } else {
        n
    }
}

/// A cost in thousandths of a penny, rounded half up. A penny is ten million
/// nano-dollars.
pub open spec fn milli_pennies(usd_nanos: u64) -> nat {
    (capped(usd_nanos + 5_000) / 10_000) as nat
}

/// A cost in pennies, with three decimals.
pub open spec fn pennies(usd_nanos: u64) -> Seq<char> {
    text::digits(milli_pennies(usd_nanos) / 1_000) + "."@ + text::padded(
        milli_pennies(usd_nanos) % 1_000,
        3,
    )
}

/// What something cost.
pub open spec fn cost_text(label: Seq<char>, usd_nanos: u64, unpriced_calls: u64) -> Seq<char> {
    let known = "Estimated "@ + label + ": "@ + pennies(usd_nanos)
        + " pennies at standard API rates"@;
    if unpriced_calls == 0 {
        known + "."@
    } else {
        known + "; "@ + text::digits(unpriced_calls as nat) + " provider "@ + (if unpriced_calls
            == 1 {
            "call"@
        } else {
            "calls"@
        }) + " could not be priced."@
    }
}

/// What something cost, in pennies to three decimals.
pub fn cost_summary(label: &str, estimated_cost_usd_nanos: u64, unpriced_calls: u64) -> (result:
    String)
    ensures
        result@ == cost_text(label@, estimated_cost_usd_nanos, unpriced_calls),
{
    let rounded: u64 = estimated_cost_usd_nanos.saturating_add(5_000) / 10_000;
    let mut amount = text::decimal((rounded / 1_000) as u128);
    amount.append(".");
    amount.append(text::padded_decimal((rounded % 1_000) as u128, 3).as_str());
    let mut result = "Estimated ".to_owned();
    result.append(label);
    result.append(": ");
    result.append(amount.as_str());
    result.append(" pennies at standard API rates");
    if unpriced_calls == 0 {
        result.append(".");
    } else {
        result.append("; ");
        result.append(text::decimal(unpriced_calls as u128).as_str());
        result.append(" provider ");
        result.append(if unpriced_calls == 1 { "call" } else { "calls" });
        result.append(" could not be priced.");
    }
    result
}

/// The rounded cost is within half a thousandth of a penny of the cost.
pub proof fn rounded_costs_are_near(usd_nanos: u64)
    requires
        usd_nanos <= u64::MAX - 5_000,
    ensures
        milli_pennies(usd_nanos) * 10_000 <= usd_nanos + 5_000,
        usd_nanos + 5_000 < (milli_pennies(usd_nanos) + 1) * 10_000,
{
}

/// The items as a list in a sentence.
pub open spec fn sentence_list(items: Seq<Seq<char>>) -> Seq<char> {
    if items.len() == 0 {
        Seq::empty()
    } else if items.len() == 1 {
        items[0]
    } else if items.len() == 2 {
        items[0] + " and "@ + items[1]
    } else {
        text::joined(items.drop_last(), ", "@) + ", and "@ + items.last()
    }
}

/// The items as a list in a sentence.
pub fn natural_language_list(items: &Vec<String>) -> (result: String)
    ensures
        result@ == sentence_list(items.deep_view()),
{
    let count: usize = items.len();
    if count == 0 {
        return String::new();
    }
    if count == 1 {
        return items[0].clone();
    }
    if count == 2 {
        let mut result = items[0].clone();
        result.append(" and ");
        result.append(items[1].as_str());
        return result;
    }
    let mut front: Vec<String> = Vec::new();
    let mut i: usize = 0;
    while i < count - 1
        invariant
            i <= count - 1,
            count == items.len(),
            front.len() == i,
            forall|j: int| 0 <= j < i ==> (#[trigger] front@[j])@ == items@[j]@,
        decreases count - 1 - i,
    {
        front.push(items[i].clone());
        i = i + 1;
    }
    assert(front.deep_view() =~= items.deep_view().drop_last());
    let mut result = text::join(&front, ", ");
    result.append(", and ");
    result.append(items[count - 1].as_str());
    result
}

/// One box text that is available as an object.
#[derive(Debug)]
pub struct BoxTextObject {
    pub box_id: u64,
    pub pending_id: String,
    pub reused: bool,
}

/// The line of one box text object.
pub open spec fn box_text_line(object: BoxTextObject) -> Seq<char> {
    let line = "\nBox "@ + text::digits(object.box_id as nat) + ": "@ + object.pending_id@;
    if object.reused {
        line + " (already staged)"@
    } else {
        line
    }
}

/// The lines of the box text objects, in order.
pub open spec fn box_text_lines(objects: Seq<BoxTextObject>) -> Seq<char>
    decreases objects.len(),
{
    if objects.len() == 0 {
        "Box text objects:"@
    } else {
        box_text_lines(objects.drop_last()) + box_text_line(objects.last())
    }
}

/// The report of box texts that are available as objects.
pub fn render_box_text_objects(objects: &Vec<BoxTextObject>) -> (result: String)
    ensures
        result@ == box_text_lines(objects@)
            + "\nThese pending object references resolve to canonical object IDs when the logical session commits."@,
{
    let mut result = "Box text objects:".to_owned();
    let mut i: usize = 0;
    while i < objects.len()
        invariant
            i <= objects.len(),
            result@ == box_text_lines(objects@.take(i as int)),
        decreases objects.len() - i,
    {
        assert(objects@.take(i + 1).drop_last() =~= objects@.take(i as int));
        let object = &objects[i];
        let mut line = "\nBox ".to_owned();
        line.append(text::decimal(object.box_id as u128).as_str());
        line.append(": ");
        line.append(object.pending_id.as_str());
        if object.reused {
            line.append(" (already staged)");
        }
        result.append(line.as_str());
        i = i + 1;
    }
    assert(objects@.take(objects.len() as int) =~= objects@);
    result.append(
        "\nThese pending object references resolve to canonical object IDs when the logical session commits.",
    );
    result
}

/// A tool that took no more than three seconds is shown as it answered, and one that took
/// longer with how long it took.
pub proof fn slow_tools_show_their_time(text: Seq<char>, elapsed: Elapsed)
    requires
        elapsed.well_formed(),
    ensures
        elapsed.seconds * 1_000_000_000 + elapsed.nanos <= 3_000_000_000 ==> timed(text, elapsed)
            == text,
        elapsed.seconds * 1_000_000_000 + elapsed.nanos > 3_000_000_000 ==> text::begins(
            timed(text, elapsed),
            text,
        ) && text::ends(
            timed(text, elapsed),
            "[tool duration: "@ + seconds_text(elapsed.seconds, elapsed.nanos) + "s]"@,
        ),
{
    if elapsed.slow() {
        let shown = timed(text, elapsed);
        let note = "[tool duration: "@ + seconds_text(elapsed.seconds, elapsed.nanos) + "s]"@;
        assert(shown.subrange(0, text.len() as int) =~= text);
        assert(shown.subrange(shown.len() - note.len(), shown.len() as int) =~= note);
    }
}

/// A line that was not ended is ended, once.
pub proof fn lines_are_ended_once(text: Seq<char>)
    ensures
        text.len() == 0 ==> line_ended(text) == text,
        text::ends(text, "\n"@) ==> line_ended(text) == text,
        text.len() > 0 && !text::ends(text, "\n"@) ==> line_ended(text) == text + "\n"@,
{
}

/// A result comes before its footer, with a blank line between them, and nothing before it.
pub proof fn results_come_before_their_footer(result: Seq<char>, footer: Seq<char>)
    ensures
        result.len() == 0 ==> footed(result, footer) == footer,
        result.len() > 0 ==> footed(result, footer) == result + "\n\n"@ + footer,
        text::begins(footed(result, footer), result),
        text::ends(footed(result, footer), footer),
{
    let all = footed(result, footer);
    assert(all.subrange(0, result.len() as int) =~= result);
    assert(all.subrange(all.len() - footer.len(), all.len() as int) =~= footer);
}

/// A search is shown with its answer, and behind it each source by a line of its own, in
/// order, with its title where that says more than its address.
pub proof fn searches_show_their_sources(
    answer: Seq<char>,
    sources: Seq<WebSource>,
    source: WebSource,
)
    ensures
        search_text(answer, Seq::empty()) == answer,
        sources.len() > 0 ==> search_text(answer, sources.push(source)) == search_text(
            answer,
            sources,
        ) + source_line(source),
        search_text(answer, seq![source]) == answer + "\n\nSources:"@ + source_line(source),
        text::blank(source.title@) ==> source_line(source) == "\n- "@ + source.url@,
        source.title@ == source.url@ ==> source_line(source) == "\n- "@ + source.url@,
        !text::blank(source.title@) && source.title@ != source.url@ ==> source_line(source)
            == "\n- "@ + source.title@ + ": "@ + source.url@,
{
    assert(sources.push(source).drop_last() =~= sources);
    if sources.len() > 0 {
        assert(search_text(answer, sources.push(source)) =~= search_text(answer, sources)
            + source_line(source));
    }
    let one = seq![source];
    assert(one.drop_last() =~= Seq::empty());
    assert(source_lines(one.drop_last()) =~= Seq::empty());
    assert(search_text(answer, one) =~= answer + "\n\nSources:"@ + source_line(source));
}

/// A page is shown with its address first and its contents last, and says so where these
/// were cut.
pub proof fn pages_show_address_and_contents(page: WebPage)
    ensures
        text::begins(page_text(page), "Source URL: "@ + page.url@),
        text::ends(page_text(page), page.content@),
        page.truncated ==> text::ends(
            page_text(page),
            "\nThe returned page text was truncated."@ + "\n\n"@ + page.content@,
        ),
        !page.truncated ==> text::ends(
            page_text(page),
            "\nContent type: "@ + page.content_type@ + "\n\n"@ + page.content@,
        ),
{
    let all = page_text(page);
    let address = "Source URL: "@ + page.url@;
    let cut = "\nThe returned page text was truncated."@ + "\n\n"@ + page.content@;
    let whole = "\nContent type: "@ + page.content_type@ + "\n\n"@ + page.content@;
    assert(all.subrange(0, address.len() as int) =~= address);
    assert(all.subrange(all.len() - page.content@.len(), all.len() as int) =~= page.content@);
    if page.truncated {
        assert(all.subrange(all.len() - cut.len(), all.len() as int) =~= cut);
    } else {
        assert(all.subrange(all.len() - whole.len(), all.len() as int) =~= whole);
    }
}

/// An annotation and a transcription end with their text, an extraction with what was
/// read; an annotation or a transcription without any is refused.
pub proof fn readings_end_with_their_text(
    object_id: Seq<char>,
    file_name: Seq<char>,
    content_type: Seq<char>,
    annotation: Annotation,
    model: Seq<char>,
    spoken: Seq<char>,
    extraction: Extraction,
)
    ensures
        ({
            let noted = annotation_text(object_id, file_name, content_type, annotation);
            let heard = transcription_text(object_id, file_name, content_type, model, spoken);
            &&& noted is Ok <==> !text::blank(annotation.text@)
            &&& noted is Ok ==> text::ends(noted->Ok_0, annotation.text@) && text::begins(
                noted->Ok_0,
                "Annotation for "@ + object_id,
            )
            &&& heard is Ok <==> !text::blank(spoken)
            &&& heard is Ok ==> text::ends(heard->Ok_0, spoken) && text::begins(
                heard->Ok_0,
                "Transcription for "@ + object_id,
            )
            &&& text::ends(extraction_text(object_id, file_name, extraction), extraction.text@)
        }),
{
    let noted = annotation_text(object_id, file_name, content_type, annotation);
    let heard = transcription_text(object_id, file_name, content_type, model, spoken);
    if noted is Ok {
        let all = noted->Ok_0;
        let words = annotation.text@;
        let start = "Annotation for "@ + object_id;
        assert(all.subrange(all.len() - words.len(), all.len() as int) =~= words);
        assert(all.subrange(0, start.len() as int) =~= start);
    }
    if heard is Ok {
        let all = heard->Ok_0;
        let start = "Transcription for "@ + object_id;
        assert(all.subrange(all.len() - spoken.len(), all.len() as int) =~= spoken);
        assert(all.subrange(0, start.len() as int) =~= start);
    }
    let all = extraction_text(object_id, file_name, extraction);
    let words = extraction.text@;
    assert(all.subrange(all.len() - words.len(), all.len() as int) =~= words);
}

/// A list reads as it is spoken: one item alone, two with "and" between them, and more
/// with commas, the last after ", and".
pub proof fn lists_read_as_spoken(
    one: Seq<char>,
    two: Seq<char>,
    items: Seq<Seq<char>>,
    last: Seq<char>,
)
    ensures
        sentence_list(seq![one]) == one,
        sentence_list(seq![one, two]) == one + " and "@ + two,
        items.len() >= 2 ==> sentence_list(items.push(last)) == text::joined(items, ", "@)
            + ", and "@ + last,
{
    assert(items.push(last).drop_last() =~= items);
}

/// The objects of boxes are listed line by line, in order, each by its box and its
/// identity.
pub proof fn box_objects_are_listed(objects: Seq<BoxTextObject>, object: BoxTextObject)
    ensures
        box_text_lines(Seq::empty()) == "Box text objects:"@,
        object.reused ==> box_text_lines(objects.push(object)) == box_text_lines(objects) + (
        "\nBox "@ + text::digits(object.box_id as nat) + ": "@ + object.pending_id@
            + " (already staged)"@),
        !object.reused ==> box_text_lines(objects.push(object)) == box_text_lines(objects) + (
        "\nBox "@ + text::digits(object.box_id as nat) + ": "@ + object.pending_id@),
{
    assert(objects.push(object).drop_last() =~= objects);
}

/// A cost is told in pennies with three decimals, rounded to the nearest, of ten million
/// billionths of a dollar each; the calls without a price are counted.
pub proof fn costs_are_told_in_pennies(
    label: Seq<char>,
    whole: nat,
    thousandths: nat,
    below: int,
    usd_nanos: u64,
    unpriced_calls: u64,
)
    requires
        usd_nanos == whole * 10_000_000 + thousandths * 10_000 + below,
        thousandths < 1_000,
        -5_000 <= below < 5_000,
        usd_nanos <= u64::MAX - 5_000,
    ensures
        pennies(usd_nanos) == text::digits(whole) + "."@ + text::padded(thousandths, 3),
        cost_text(label, usd_nanos, 0) == "Estimated "@ + label + ": "@ + pennies(usd_nanos)
            + " pennies at standard API rates"@ + "."@,
        cost_text(label, usd_nanos, 1) == "Estimated "@ + label + ": "@ + pennies(usd_nanos)
            + " pennies at standard API rates"@ + "; "@ + text::digits(1) + " provider "@ + "call"@
            + " could not be priced."@,
        unpriced_calls > 1 ==> cost_text(label, usd_nanos, unpriced_calls) == "Estimated "@ + label
            + ": "@ + pennies(usd_nanos) + " pennies at standard API rates"@ + "; "@ + text::digits(
            unpriced_calls as nat,
        ) + " provider "@ + "calls"@ + " could not be priced."@,
{
    assert(milli_pennies(usd_nanos) == whole * 1_000 + thousandths);
    assert((whole * 1_000 + thousandths) / 1_000 == whole);
    assert((whole * 1_000 + thousandths) % 1_000 == thousandths);
}

/// A picture that was made is told by its object, its file and how to deliver it.
pub proof fn pictures_are_told_by_their_object(
    object_id: Seq<char>,
    file_name: Seq<char>,
    content_type: Seq<char>,
    size: nat,
    model: Seq<char>,
)
    ensures
        text::begins(
            generated_text(object_id, file_name, content_type, size, model),
            "Generated image.\nObject: "@ + object_id + "\nFile: "@ + file_name
                + "\nContent type: "@ + content_type + "\nSize: "@ + text::digits(size),
        ),
        text::ends(
            generated_text(object_id, file_name, content_type, size, model),
            "\nModel: "@ + model + "\nUse EmitObject with "@ + object_id + " to deliver it."@,
        ),
{
    let whole = generated_text(object_id, file_name, content_type, size, model);
    let start = "Generated image.\nObject: "@ + object_id + "\nFile: "@ + file_name
        + "\nContent type: "@ + content_type + "\nSize: "@ + text::digits(size);
    let end = "\nModel: "@ + model + "\nUse EmitObject with "@ + object_id + " to deliver it."@;
    reveal_strlit(" bytes\nModel: ");
    reveal_strlit("\nModel: ");
    assert(whole.subrange(0, start.len() as int) =~= start);
    assert(whole.subrange(whole.len() - end.len(), whole.len() as int) =~= end);
}

} // verus!
