//! Diagnostic text: the tree of spans around an event, and the full context
//! of an event with the chain of events that led to it.

use vstd::prelude::*;
use vstd::string::*;
use crate::event::{opt_text, Event};
use crate::event_data::EventData;
use crate::fields::FieldMap;
use crate::span::SpanInfo;
use crate::text::{decimal, decimal_text, indent_text};
use crate::time::{elapsed_text, Timestamp};

verus! {

/// Every entry written as `before`, its name, `between`, its value and
/// `after`, in the order of the entries.
pub open spec fn pairs_text(
    entries: Seq<(Seq<char>, Seq<char>)>,
    before: Seq<char>,
    between: Seq<char>,
    after: Seq<char>,
) -> Seq<char>
    decreases entries.len(),
{
    if entries.len() == 0 {
        Seq::empty()
    } else {
        pairs_text(entries.drop_last(), before, between, after) + before + entries.last().0
            + between + entries.last().1 + after
    }
}

/// The fields of a span in braces behind its line; nothing where it has none.
pub open spec fn span_fields_text(entries: Seq<(Seq<char>, Seq<char>)>) -> Seq<char> {
    if entries.len() == 0 {
        Seq::empty()
    } else {
        " {"@ + pairs_text(entries, " "@, "="@, Seq::empty()) + " }"@
    }
}

/// The note on a span's duration: the duration in brackets, or that the
/// span is active where there is none to show.
pub open spec fn duration_label(rendered: Option<Seq<char>>) -> Seq<char> {
    match rendered {
        Some(t) => " ["@ + t + "]"@,
        None => " [active]"@,
    }
}

/// The line for one span: indentation, name, level, duration and fields.
pub open spec fn span_line_text(span: SpanInfo, indent: Seq<char>, rendered: Option<Seq<char>>) -> Seq<
    char,
> {
    indent + "├─ "@ + span.name@ + " ("@ + span.level.spec_level().spec_label() + ")"@
        + duration_label(rendered) + span_fields_text(span.fields.entries()) + "\n"@
}

/// The duration of a span, read at `now`, as text.
pub open spec fn rendered_duration(span: SpanInfo, now: Timestamp) -> Option<Seq<char>> {
    match span.spec_duration_at(now) {
        Some(n) => Some(elapsed_text((n / 1_000_000_000) as u64, (n % 1_000_000_000) as u32)),
        None => None,
    }
}

/// A span and everything below it: its own line, then its children in
/// their order, each one level deeper and followed by its own children.
pub open spec fn span_text(span: SpanInfo, indent: Seq<char>, now: Timestamp) -> Seq<char>
    decreases span, 0nat,
{
    span_line_text(span, indent, rendered_duration(span, now)) + spans_text(
        span.children@,
        indent + "  "@,
        now,
    )
}

/// Several spans at one depth, one after the other.
pub open spec fn spans_text(spans: Seq<SpanInfo>, indent: Seq<char>, now: Timestamp) -> Seq<char>
    decreases spans, 1nat,
{
    if spans.len() == 0 {
        Seq::empty()
    } else {
        spans_text(spans.drop_last(), indent, now) + span_text(spans.last(), indent, now)
    }
}

/// The stack of spans, outermost first, each entry one level deeper than
/// the one before it.
pub open spec fn stack_text(stack: Seq<SpanInfo>, now: Timestamp) -> Seq<char>
    decreases stack.len(),
{
    if stack.len() == 0 {
        Seq::empty()
    } else {
        stack_text(stack.drop_last(), now) + span_text(
            stack.last(),
            indent_text((stack.len() - 1) as nat),
            now,
        )
    }
}

/// The line that names the current span; nothing where there is none.
pub open spec fn current_span_text(current: Option<SpanInfo>) -> Seq<char> {
    match current {
        Some(span) => "Current Span: "@ + span.name@ + " ("@ + span.level.spec_level().spec_label()
            + ")\n"@,
        None => Seq::empty(),
    }
}

/// The tree of spans around an event, read at `now`.
pub open spec fn span_tree_text(event: Event, now: Timestamp) -> Seq<char> {
    current_span_text(event.current_span) + (if event.span_stack@.len() > 0 {
        "Span Stack:\n"@ + stack_text(event.span_stack@, now)
    } else {
        Seq::empty()
    })
}

/// The opening lines of a context: message and level, target, and the time
/// of capture as `stamp` gives it.
pub open spec fn header_text(data: EventData, stamp: Seq<char>) -> Seq<char> {
    "Event: "@ + data.message@ + " ("@ + data.level.spec_level().spec_label() + ")\n"@ + "Target: "@
        + data.target@ + "\n"@ + "Timestamp: "@ + stamp + "\n"@
}

/// The line that names the source location: the file and the line in it,
/// with 0 for a line that is not known. Nothing where the file is not known.
pub open spec fn location_text(data: EventData) -> Seq<char> {
    match data.file {
        Some(file) => "Location: "@ + file@ + ":"@ + decimal_text(
            match data.line {
                Some(line) => line as nat,
                None => 0,
            },
        ) + "\n"@,
        None => Seq::empty(),
    }
}

/// The line on the thread on which the event fired, with the thread's
/// name in parentheses where it has one. Nothing where the thread is not known.
pub open spec fn thread_text(event: Event) -> Seq<char> {
    match event.thread_id {
        Some(id) => "Thread: "@ + id@ + (match event.thread_name {
            Some(name) => " ("@ + name@ + ")"@,
            None => Seq::empty(),
        }) + "\n"@,
        None => Seq::empty(),
    }
}

/// The line on the process. Nothing where the process is not known.
pub open spec fn process_text(event: Event) -> Seq<char> {
    match event.process_id {
        Some(pid) => "Process ID: "@ + decimal_text(pid as nat) + "\n"@,
        None => Seq::empty(),
    }
}

/// The line on the correlation id. Nothing where the event has none.
pub open spec fn correlation_text(event: Event) -> Seq<char> {
    match event.correlation_id {
        Some(id) => "Correlation ID: "@ + id@ + "\n"@,
        None => Seq::empty(),
    }
}

/// The lines on the thread, the process and the correlation id, each only
/// where it is known.
pub open spec fn origin_text(event: Event) -> Seq<char> {
    thread_text(event) + process_text(event) + correlation_text(event)
}

/// A titled list of entries, one per line; nothing where there are none.
pub open spec fn section_text(title: Seq<char>, entries: Seq<(Seq<char>, Seq<char>)>) -> Seq<char> {
    if entries.len() == 0 {
        Seq::empty()
    } else {
        title + pairs_text(entries, "  "@, ": "@, "\n"@)
    }
}

/// The context of one event without the events that led to it.
pub open spec fn own_context_text(event: Event, now: Timestamp) -> Seq<char> {
    header_text(event.event_data, event.event_data.timestamp.spec_render()) + location_text(
        event.event_data,
    ) + origin_text(event) + section_text("Event Fields:\n"@, event.event_data.fields.entries())
        + section_text("Metadata:\n"@, event.custom_metadata.entries()) + "\n"@ + span_tree_text(
        event,
        now,
    )
}

/// The full context of an event: its own, and behind it that of its parent,
/// of the parent's parent, and so on to the event that has none.
pub open spec fn context_text(event: Event, now: Timestamp) -> Seq<char>
    decreases event,
{
    own_context_text(event, now) + (match event.parent {
        Some(parent) => "\n--- Parent Event ---\n"@ + context_text(*parent, now),
        None => Seq::empty(),
    })
}

/// Appends every entry of `fields` to `out`, each framed by the three texts.
pub fn write_pairs(out: &mut String, fields: &FieldMap, before: &str, between: &str, after: &str)
    ensures
        final(out)@ == old(out)@ + pairs_text(fields.entries(), before@, between@, after@),
{
    let mut i: usize = 0;
    assert(fields.entries().take(0) =~= Seq::empty());
    assert(out@ =~= old(out)@ + pairs_text(fields.entries().take(0), before@, between@, after@));
    while i < fields.len()
        invariant
            i <= fields.entries().len(),
            out@ == old(out)@ + pairs_text(fields.entries().take(i as int), before@, between@, after@),
        decreases fields.entries().len() - i,
    {
        let ghost done = pairs_text(fields.entries().take(i as int), before@, between@, after@);
        out.append(before);
        out.append(fields.key_at(i).as_str());
        out.append(between);
        out.append(fields.value_at(i).as_str());
        out.append(after);
        i += 1;
        proof {
            let head = fields.entries().take(i as int);
            assert(head.drop_last() =~= fields.entries().take(i - 1));
            assert(head.last() == fields.entries()[i - 1]);
            assert(out@ =~= old(out)@ + (done + before@ + head.last().0 + between@ + head.last().1
                + after@));
        }
    }
    assert(fields.entries().take(i as int) =~= fields.entries());
}

/// Appends the line for `span` to `out`, with `rendered` as the text of its
/// duration.
pub fn write_span_line(out: &mut String, span: &SpanInfo, indent: &str, rendered: Option<&str>)
    ensures
        final(out)@ == old(out)@ + span_line_text(*span, indent@, opt_text(rendered)),
{
    let ghost start = out@;
    out.append(indent);
    out.append("├─ ");
    out.append(span.name.as_str());
    out.append(" (");
    out.append(span.level().label().as_str());
    out.append(")");
    let ghost head = out@;
    match rendered {
        Some(t) => {
            out.append(" [");
            out.append(t);
            out.append("]");
            assert(out@ =~= head + (" ["@ + t@ + "]"@));
        },
        None => {
            out.append(" [active]");
        },
    }
    let ghost timed = out@;
    assert(timed == head + duration_label(opt_text(rendered)));
    if !span.fields.is_empty() {
        out.append(" {");
        write_pairs(out, &span.fields, " ", "=", "");
        out.append(" }");
        proof {
            reveal_strlit("");
            assert(""@ =~= Seq::<char>::empty());
            assert(out@ =~= timed + (" {"@ + pairs_text(span.fields.entries(), " "@, "="@, Seq::empty())
                + " }"@));
        }
    } else {
        assert(out@ =~= timed + span_fields_text(span.fields.entries()));
    }
    out.append("\n");
    assert(out@ =~= start + span_line_text(*span, indent@, opt_text(rendered)));
}

/// Appends the opening lines of a context to `out`, with `stamp` as the
/// text of the time of capture.
pub fn write_header(out: &mut String, data: &EventData, stamp: &str)
    ensures
        final(out)@ == old(out)@ + header_text(*data, stamp@),
{
    let ghost start = out@;
    out.append("Event: ");
    out.append(data.message.as_str());
    out.append(" (");
    out.append(data.level().label().as_str());
    out.append(")\n");
    out.append("Target: ");
    out.append(data.target.as_str());
    out.append("\n");
    out.append("Timestamp: ");
    out.append(stamp);
    out.append("\n");
    assert(out@ =~= start + header_text(*data, stamp@));
}

/// Appends the line on the source location to `out`.
pub fn write_location(out: &mut String, data: &EventData)
    ensures
        final(out)@ == old(out)@ + location_text(*data),
{
    let ghost start = out@;
    match &data.file {
        Some(file) => {
            let line: u32 = match data.line {
                Some(line) => line,
                None => 0,
            };
            out.append("Location: ");
            out.append(file.as_str());
            out.append(":");
            out.append(decimal(line as u64).as_str());
            out.append("\n");
            assert(out@ =~= start + location_text(*data));
        },
        None => {
            assert(out@ =~= start + location_text(*data));
        },
    }
}

fn write_thread(out: &mut String, event: &Event)
    ensures
        final(out)@ == old(out)@ + thread_text(*event),
{
    let ghost start = out@;
    match &event.thread_id {
        Some(id) => {
            out.append("Thread: ");
            out.append(id.as_str());
            let ghost named = out@;
            match &event.thread_name {
                Some(name) => {
                    out.append(" (");
                    out.append(name.as_str());
                    out.append(")");
                    assert(out@ =~= named + (" ("@ + name@ + ")"@));
                },
                None => {
                    assert(out@ =~= named + Seq::<char>::empty());
                },
            }
            out.append("\n");
            assert(out@ =~= start + thread_text(*event));
        },
        None => {
            assert(out@ =~= start + thread_text(*event));
        },
    }
}

fn write_process(out: &mut String, event: &Event)
    ensures
        final(out)@ == old(out)@ + process_text(*event),
{
    let ghost start = out@;
    match event.process_id {
        Some(pid) => {
            out.append("Process ID: ");
            out.append(decimal(pid as u64).as_str());
            out.append("\n");
            assert(out@ =~= start + process_text(*event));
        },
        None => {
            assert(out@ =~= start + process_text(*event));
        },
    }
}

fn write_correlation(out: &mut String, event: &Event)
    ensures
        final(out)@ == old(out)@ + correlation_text(*event),
{
    let ghost start = out@;
    match &event.correlation_id {
        Some(id) => {
            out.append("Correlation ID: ");
            out.append(id.as_str());
            out.append("\n");
            assert(out@ =~= start + correlation_text(*event));
        },
        None => {
            assert(out@ =~= start + correlation_text(*event));
        },
    }
}

/// Appends the lines on thread, process and correlation id to `out`.
pub fn write_origin(out: &mut String, event: &Event)
    ensures
        final(out)@ == old(out)@ + origin_text(*event),
{
    let ghost start = out@;
    write_thread(out, event);
    write_process(out, event);
    write_correlation(out, event);
    assert(out@ =~= start + origin_text(*event));
}

/// Appends a titled list of entries to `out`; nothing where there are none.
pub fn write_section(out: &mut String, title: &str, fields: &FieldMap)
    ensures
        final(out)@ == old(out)@ + section_text(title@, fields.entries()),
{
    let ghost start = out@;
    if !fields.is_empty() {
        out.append(title);
        write_pairs(out, fields, "  ", ": ", "\n");
        assert(out@ =~= start + (title@ + pairs_text(fields.entries(), "  "@, ": "@, "\n"@)));
    } else {
        assert(out@ =~= start + section_text(title@, fields.entries()));
    }
}

/// Appends `span` and everything below it to `out`.
fn format_span_child(span: &SpanInfo, indent: &str, now: Timestamp, tree: &mut String)
    ensures
        final(tree)@ == old(tree)@ + span_text(*span, indent@, now),
    decreases *span,
{
    let ghost start = tree@;
    match span.get_duration_at(now) {
        Some(d) => {
            let text = d.render();
            write_span_line(tree, span, indent, Some(text.as_str()));
        },
        None => {
            write_span_line(tree, span, indent, None);
        },
    }
    let ghost line = span_line_text(*span, indent@, rendered_duration(*span, now));
    assert(tree@ == start + line);
    let mut deeper = String::from_str(indent);
    deeper.append("  ");
    let mut i: usize = 0;
    assert(span.children@.take(0) =~= Seq::empty());
    assert(tree@ =~= start + line + spans_text(span.children@.take(0), deeper@, now));
    while i < span.children.len()
        invariant
            i <= span.children@.len(),
            deeper@ == indent@ + "  "@,
            tree@ == start + line + spans_text(span.children@.take(i as int), deeper@, now),
        decreases span.children@.len() - i,
    {
        let ghost done = spans_text(span.children@.take(i as int), deeper@, now);
        format_span_child(&span.children[i], deeper.as_str(), now, tree);
        i += 1;
        proof {
            let head = span.children@.take(i as int);
            assert(head.drop_last() =~= span.children@.take(i - 1));
            assert(head.last() == span.children@[i - 1]);
            assert(tree@ =~= start + line + (done + span_text(head.last(), deeper@, now)));
        }
    }
    assert(span.children@.take(i as int) =~= span.children@);
    assert(tree@ =~= start + (line + spans_text(span.children@, deeper@, now)));
}

impl Event {
    /// The spans around the event as an indented tree, with durations read
    /// at `now`: first the current span, then the stack from the outermost
    /// span inwards, each span followed by the spans below it.
    pub fn get_span_tree_at(&self, now: Timestamp) -> (r: String)
        ensures
            r@ == span_tree_text(*self, now),
    {
        let mut tree = String::new();
        match &self.current_span {
            Some(current) => {
                tree.append("Current Span: ");
                tree.append(current.name.as_str());
                tree.append(" (");
                tree.append(current.level().label().as_str());
                tree.append(")\n");
                assert(tree@ =~= current_span_text(self.current_span));
            },
            None => {
                assert(tree@ =~= current_span_text(self.current_span));
            },
        }
        let ghost top = tree@;
        if self.span_stack.len() > 0 {
            tree.append("Span Stack:\n");
            let mut indent = String::new();
            let mut i: usize = 0;
            assert(self.span_stack@.take(0) =~= Seq::empty());
            assert(tree@ =~= top + "Span Stack:\n"@ + stack_text(self.span_stack@.take(0), now));
            assert(indent@ =~= indent_text(0));
            while i < self.span_stack.len()
                invariant
                    i <= self.span_stack@.len(),
                    indent@ == indent_text(i as nat),
                    tree@ == top + "Span Stack:\n"@ + stack_text(self.span_stack@.take(i as int), now),
                decreases self.span_stack@.len() - i,
            {
                let ghost done = stack_text(self.span_stack@.take(i as int), now);
                format_span_child(&self.span_stack[i], indent.as_str(), now, &mut tree);
                indent.append("  ");
                i += 1;
                proof {
                    let head = self.span_stack@.take(i as int);
                    assert(head.drop_last() =~= self.span_stack@.take(i - 1));
                    assert(head.last() == self.span_stack@[i - 1]);
                    assert(tree@ =~= top + "Span Stack:\n"@ + (done + span_text(
                        head.last(),
                        indent_text((head.len() - 1) as nat),
                        now,
                    )));
                }
            }
            assert(self.span_stack@.take(i as int) =~= self.span_stack@);
            assert(tree@ =~= top + ("Span Stack:\n"@ + stack_text(self.span_stack@, now)));
        } else {
            assert(tree@ =~= top + Seq::<char>::empty());
        }
        tree
    }

    /// The spans around the event as an indented tree, with durations read
    /// from the system clock.
    pub fn get_span_tree(&self) -> (r: String)
        ensures
            exists|now: Timestamp| r@ == span_tree_text(*self, now),
    {
        let now = Timestamp::now();
        let r = self.get_span_tree_at(now);
        assert(r@ == span_tree_text(*self, now));
        r
    }
    /// Everything that is known of the event, as text, with durations read
    /// at `now`: what it says, where and when it arose, its fields and
    /// metadata, the spans around it, and then the same for its parent and
    /// on up the chain.
    pub fn get_full_context_at(&self, now: Timestamp) -> (r: String)
        ensures
            r@ == context_text(*self, now),
        decreases *self,
    {
        let mut context = String::new();
        write_header(&mut context, &self.event_data, self.event_data.timestamp.render().as_str());
        write_location(&mut context, &self.event_data);
        write_origin(&mut context, self);
        write_section(&mut context, "Event Fields:\n", &self.event_data.fields);
        write_section(&mut context, "Metadata:\n", &self.custom_metadata);
        context.append("\n");
        context.append(self.get_span_tree_at(now).as_str());
        assert(context@ =~= own_context_text(*self, now));
        match &self.parent {
            Some(parent) => {
                context.append("\n--- Parent Event ---\n");
                let above = parent.get_full_context_at(now);
                context.append(above.as_str());
                assert(context@ =~= own_context_text(*self, now) + ("\n--- Parent Event ---\n"@
                    + context_text(**parent, now)));
            },
            None => {
                assert(context@ =~= own_context_text(*self, now) + Seq::<char>::empty());
            },
        }
        context
    }

    /// Everything that is known of the event, as text, with durations read
    /// from the system clock.
    pub fn get_full_context(&self) -> (r: String)
        ensures
            exists|now: Timestamp| r@ == context_text(*self, now),
    {
        let now = Timestamp::now();
        let r = self.get_full_context_at(now);
        assert(r@ == context_text(*self, now));
        r
    }
}

} // verus!
