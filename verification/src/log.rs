//! The log layer: its configuration, its level filter and the layout of
//! one log line.

use crate::fields::{
    count_char, lemma_count_char_concat, lemma_rendered_commas, pairs, recorded_all, rendered,
    texts, ExtendedLog, FieldsView,
};
use vstd::prelude::*;
use vstd::string::StringExecFns;

verus! {

/// Name of the event field that holds the message.
pub const MESSAGE: &'static str = "message";

/// The severity of an event, from the most to the least severe.
#[allow(non_camel_case_types)]
#[derive(Clone, Copy, Debug, PartialEq, Eq)]
pub enum Level {
    ERROR,
    WARN,
    INFO,
    DEBUG,
    TRACE,
}

impl Level {
    /// The place of the level in the order
    /// `ERROR < WARN < INFO < DEBUG < TRACE`.
    pub open spec fn rank(self) -> int {
        match self {
            Level::ERROR => 0,
            Level::WARN => 1,
            Level::INFO => 2,
            Level::DEBUG => 3,
            Level::TRACE => 4,
        }
    }

    /// The name of the level as it stands in a log line.
    pub open spec fn name(self) -> Seq<char> {
        match self {
            Level::ERROR => seq!['E', 'R', 'R', 'O', 'R'],
            Level::WARN => seq!['W', 'A', 'R', 'N'],
            Level::INFO => seq!['I', 'N', 'F', 'O'],
            Level::DEBUG => seq!['D', 'E', 'B', 'U', 'G'],
            Level::TRACE => seq!['T', 'R', 'A', 'C', 'E'],
        }
    }

    fn index(&self) -> (r: u8)
        ensures
            r as int == self.rank(),
    {
        match self {
            Level::ERROR => 0,
            Level::WARN => 1,
            Level::INFO => 2,
            Level::DEBUG => 3,
            Level::TRACE => 4,
        }
    }

    /// The name of the level as it stands in a log line.
    pub fn as_str(&self) -> (r: &'static str)
        ensures
            r@ == self.name(),
    {
        proof {
            reveal_strlit("ERROR");
            reveal_strlit("WARN");
            reveal_strlit("INFO");
            reveal_strlit("DEBUG");
            reveal_strlit("TRACE");
        }
        let r = match self {
            Level::ERROR => "ERROR",
            Level::WARN => "WARN",
            Level::INFO => "INFO",
            Level::DEBUG => "DEBUG",
            Level::TRACE => "TRACE",
        };
        assert(r@ =~= self.name());
        r
    }
}

/// Whether a layer that admits events up to `max_level` admits an event at
/// `level`.
pub open spec fn passes(max_level: Level, level: Level) -> bool {
    level.rank() <= max_level.rank()
}

/// What a log layer was configured with.
pub struct LogConfig {
    pub app_name: Seq<char>,
    pub max_level: Level,
    pub extend_fields: Seq<Seq<char>>,
}

/// A layer that writes one line for each event, with the application's
/// name and the fields of the current span.
pub struct FallLog<W> {
    writer: W,
    max_level: Level,
    app_name: String,
    extend_fields: Vec<String>,
}

impl<W> View for FallLog<W> {
    type V = LogConfig;

    closed spec fn view(&self) -> LogConfig {
        LogConfig {
            app_name: self.app_name@,
            max_level: self.max_level,
            extend_fields: texts(self.extend_fields@),
        }
    }
}

/// What stands between the square brackets of a line: the application's
/// name, a comma, and the fields of the current span where there is one.
pub open spec fn bracket(app_name: Seq<char>, span: Option<FieldsView>) -> Seq<char> {
    app_name + seq![','] + match span {
        Some(fields) => rendered(fields.keys, fields.data),
        None => Seq::empty(),
    }
}

/// The text of an event: the values of its fields named `message`, and of
/// no other field.
pub open spec fn message_text(fields: Seq<(Seq<char>, Seq<char>)>) -> Seq<char>
    decreases fields.len(),
{
    if fields.len() == 0 {
        Seq::empty()
    } else {
        message_text(fields.drop_last()) + if fields.last().0 == MESSAGE@ {
            fields.last().1
        } else {
            Seq::empty()
        }
    }
}

/// The five parts of a line with what separates them:
/// `<timestamp> <LEVEL> [<inner>] <module>: <message>` and a line feed.
pub open spec fn line_of(
    timestamp: Seq<char>,
    level: Level,
    inner: Seq<char>,
    module: Seq<char>,
    message: Seq<char>,
) -> Seq<char> {
    timestamp + seq![' '] + level.name() + seq![' ', '['] + inner + seq![']', ' '] + module + seq![
        ':',
        ' ',
    ] + message + seq!['\n']
}

/// One log line:
/// `<timestamp> <LEVEL> [<app_name>,<span fields>] <module>: <message>`
/// and a line feed.
pub open spec fn event_line(
    timestamp: Seq<char>,
    level: Level,
    app_name: Seq<char>,
    span: Option<FieldsView>,
    module: Seq<char>,
    message: Seq<char>,
) -> Seq<char> {
    line_of(timestamp, level, bracket(app_name, span), module, message)
}

/// Whether `c` may stand at place `i` of a timestamp
/// `YYYY-MM-DDThh:mm:ss.sssZ`.
pub open spec fn timestamp_char(i: int, c: char) -> bool {
    if i == 4 || i == 7 {
        c == '-'
    } else if i == 10 {
        c == 'T'
    } else if i == 13 || i == 16 {
        c == ':'
    } else if i == 19 {
        c == '.'
    } else if i == 23 {
        c == 'Z'
    } else {
        '0' <= c && c <= '9'
    }
}

/// Whether `ts` has the form `YYYY-MM-DDThh:mm:ss.sssZ`: a date and a time
/// in UTC with three digits after the second.
pub open spec fn is_timestamp(ts: Seq<char>) -> bool {
    &&& ts.len() == 24
    &&& forall|i: int| 0 <= i < 24 ==> timestamp_char(i, #[trigger] ts[i])
}

/// Whether `line` is a timestamp, a blank, the name of a level, a blank,
/// a bracketed part without a closing bracket inside, a blank, a part
/// without a colon, a colon, a blank, a part without a line feed, and a
/// line feed.
pub open spec fn matches_line_pattern(line: Seq<char>) -> bool {
    exists|
        timestamp: Seq<char>,
        level: Level,
        inner: Seq<char>,
        module: Seq<char>,
        message: Seq<char>,
    |
        #![trigger line_of(timestamp, level, inner, module, message)]
        {
            &&& line == line_of(timestamp, level, inner, module, message)
            &&& is_timestamp(timestamp)
            &&& !inner.contains(']')
            &&& !module.contains(':')
            &&& !message.contains('\n')
        }
}

/// The fields of an optional span.
pub open spec fn fields_of(span: Option<&ExtendedLog>) -> Option<FieldsView> {
    match span {
        Some(fields) => Some(fields@),
        None => None,
    }
}

/// The text of an optional module: nothing where there is none.
pub open spec fn path_of(module: Option<&str>) -> Seq<char> {
    match module {
        Some(path) => path@,
        None => Seq::empty(),
    }
}

/// `chrono::Utc::now()` followed by
/// `DateTime::to_rfc3339_opts(SecondsFormat::Millis, true)`: the current
/// time of the system clock in UTC, as text. Nothing is promised of the
/// text, which changes from call to call. The clock must not stand before
/// 1970.
#[verifier::external_body]
fn utc_now_millis() -> (r: String) {
    chrono::Utc::now().to_rfc3339_opts(chrono::SecondsFormat::Millis, true)
}

impl<W> FallLog<W> {
    /// The writer that the layer was made with.
    pub closed spec fn spec_writer(&self) -> W {
        self.writer
    }

    /// A layer for the application `app_name` that writes to `make_writer`,
    /// admits events up to `INFO` and has no fields beyond the default ones.
    pub fn new(app_name: String, make_writer: W) -> (r: Self)
        ensures
            r@ == (LogConfig {
                app_name: app_name@,
                max_level: Level::INFO,
                extend_fields: Seq::empty(),
            }),
            r.spec_writer() == make_writer,
    {
        let r = FallLog {
            writer: make_writer,
            max_level: Level::INFO,
            app_name,
            extend_fields: Vec::new(),
        };
        assert(texts(r.extend_fields@) =~= Seq::<Seq<char>>::empty());
        r
    }

    /// The same layer, admitting events up to `level`.
    pub fn max_level(self, level: Level) -> (r: Self)
        ensures
            r@ == (LogConfig { max_level: level, ..self@ }),
            r.spec_writer() == self.spec_writer(),
    {
        FallLog {
            writer: self.writer,
            max_level: level,
            app_name: self.app_name,
            extend_fields: self.extend_fields,
        }
    }

    /// The same layer with one more field, written after those it has.
    pub fn add_field(self, field_name: String) -> (r: Self)
        ensures
            r@ == (LogConfig { extend_fields: self@.extend_fields.push(field_name@), ..self@ }),
            r.spec_writer() == self.spec_writer(),
    {
        let ghost before = self.extend_fields@;
        let mut f = self.extend_fields;
        f.push(field_name);
        assert(texts(f@) =~= texts(before).push(field_name@));
        FallLog {
            writer: self.writer,
            max_level: self.max_level,
            app_name: self.app_name,
            extend_fields: f,
        }
    }

    /// The writer that the layer was made with.
    pub fn writer(&self) -> (r: &W)
        ensures
            *r == self.spec_writer(),
    {
        &self.writer
    }

    /// The name of the application.
    pub fn app_name(&self) -> (r: &str)
        ensures
            r@ == self@.app_name,
    {
        self.app_name.as_str()
    }

    /// Whether an event at `level` is written: it is if and only if `level`
    /// is at most the configured maximum in the order
    /// `ERROR < WARN < INFO < DEBUG < TRACE`.
    pub fn enabled(&self, level: Level) -> (r: bool)
        ensures
            r == passes(self@.max_level, level),
    {
        level.index() <= self.max_level.index()
    }

    /// The field bag of a new span: the default keys, then the configured
    /// fields in their order, with those of `attrs` recorded whose name is
    /// a key.
    pub fn new_span(&self, attrs: &Vec<(String, String)>) -> (r: ExtendedLog)
        ensures
            r.wf(),
            r@.keys == crate::fields::default_keys() + self@.extend_fields,
            r@.data == recorded_all(
                r@.keys,
                Map::<Seq<char>, Seq<char>>::empty(),
                pairs(attrs@),
            ),
    {
        let mut info = ExtendedLog::with_fields(&self.extend_fields);
        info.record_all(attrs);
        info
    }

    /// Takes the values that a span was given after its creation into its
    /// field bag.
    pub fn on_record(&self, span: &mut ExtendedLog, values: &Vec<(String, String)>)
        requires
            old(span).wf(),
        ensures
            final(span).wf(),
            final(span)@.keys == old(span)@.keys,
            final(span)@.data == recorded_all(old(span)@.keys, old(span)@.data, pairs(values@)),
    {
        span.record_all(values);
    }
}

impl<W> FallLog<W> {
    /// Appends to `buf` the line for an event that happened at `timestamp`:
    /// the timestamp, the level, the application's name with the fields of
    /// the current span, the module the event comes from, and the event's
    /// message. Fields of the event other than the message are not written.
    pub fn format_event(
        &self,
        buf: &mut String,
        timestamp: &str,
        level: Level,
        span: Option<&ExtendedLog>,
        module: Option<&str>,
        fields: &Vec<(String, String)>,
    )
        requires
            span matches Some(bag) ==> bag.wf(),
        ensures
            final(buf)@ == old(buf)@ + event_line(
                timestamp@,
                level,
                self@.app_name,
                fields_of(span),
                path_of(module),
                message_text(pairs(fields@)),
            ),
    {
        let ghost start = buf@;
        let ghost inner = bracket(self@.app_name, fields_of(span));
        buf.append(timestamp);
        let ghost acc = timestamp@;
        put_char(buf, Ghost(start), Ghost(acc), ' ');
        let ghost acc = acc + seq![' '];
        put(buf, Ghost(start), Ghost(acc), level.as_str());
        let ghost acc = acc + level.name();
        put_char(buf, Ghost(start), Ghost(acc), ' ');
        put_char(buf, Ghost(start), Ghost(acc + seq![' ']), '[');
        proof {
            assert(acc + seq![' '] + seq!['['] =~= acc + seq![' ', '[']);
        }
        let ghost acc = acc + seq![' ', '['];
        self.put_bracket(buf, Ghost(start), Ghost(acc), span);
        let ghost acc = acc + inner;
        put_char(buf, Ghost(start), Ghost(acc), ']');
        put_char(buf, Ghost(start), Ghost(acc + seq![']']), ' ');
        proof {
            assert(acc + seq![']'] + seq![' '] =~= acc + seq![']', ' ']);
        }
        let ghost acc = acc + seq![']', ' '];
        match module {
            Some(path) => {
                put(buf, Ghost(start), Ghost(acc), path);
            },
            None => {
                assert(acc + Seq::<char>::empty() =~= acc);
            },
        }
        let ghost acc = acc + path_of(module);
        put_char(buf, Ghost(start), Ghost(acc), ':');
        put_char(buf, Ghost(start), Ghost(acc + seq![':']), ' ');
        proof {
            assert(acc + seq![':'] + seq![' '] =~= acc + seq![':', ' ']);
        }
        let ghost acc = acc + seq![':', ' '];
        put_message(buf, Ghost(start), Ghost(acc), fields);
        let ghost acc = acc + message_text(pairs(fields@));
        put_char(buf, Ghost(start), Ghost(acc), '\n');
    }

    /// Appends to `buf` the line for an event that happens now, as
    /// `format_event` lays it out, with the time of the system clock.
    pub fn on_event(
        &self,
        buf: &mut String,
        level: Level,
        span: Option<&ExtendedLog>,
        module: Option<&str>,
        fields: &Vec<(String, String)>,
    )
        requires
            span matches Some(bag) ==> bag.wf(),
        ensures
            exists|timestamp: Seq<char>|
                final(buf)@ == old(buf)@ + #[trigger] event_line(
                    timestamp,
                    level,
                    self@.app_name,
                    fields_of(span),
                    path_of(module),
                    message_text(pairs(fields@)),
                ),
    {
        let now = utc_now_millis();
        self.format_event(buf, now.as_str(), level, span, module, fields);
    }
}

/// A line has the stable shape whenever its timestamp has the form
/// `YYYY-MM-DDThh:mm:ss.sssZ`, no closing bracket stands between the
/// brackets, no colon in the module and no line feed in the message.
pub proof fn lemma_event_line_shape(
    timestamp: Seq<char>,
    level: Level,
    app_name: Seq<char>,
    span: Option<FieldsView>,
    module: Seq<char>,
    message: Seq<char>,
)
    requires
        is_timestamp(timestamp),
        !bracket(app_name, span).contains(']'),
        !module.contains(':'),
        !message.contains('\n'),
    ensures
        matches_line_pattern(event_line(timestamp, level, app_name, span, module, message)),
{
    let inner = bracket(app_name, span);
    assert(event_line(timestamp, level, app_name, span, module, message) == line_of(
        timestamp,
        level,
        inner,
        module,
        message,
    ));
}

/// With no comma inside the application's name or a value, the bracketed
/// part of a line holds as many commas as the span has keys, whichever of
/// them have a value; outside any span it holds one.
pub proof fn lemma_bracket_commas(app_name: Seq<char>, span: Option<FieldsView>)
    requires
        count_char(app_name, ',') == 0,
        span matches Some(fields) ==> fields.keys.len() >= 1 && forall|key: Seq<char>| #[trigger]
            fields.data.dom().contains(key) ==> count_char(fields.data[key], ',') == 0,
    ensures
        count_char(bracket(app_name, span), ',') == match span {
            Some(fields) => fields.keys.len(),
            None => 1,
        },
{
    assert(seq![','].drop_last() =~= Seq::<char>::empty());
    assert(count_char(Seq::<char>::empty(), ',') == 0);
    assert(count_char(seq![','], ',') == 1);
    lemma_count_char_concat(app_name, seq![','], ',');
    match span {
        Some(fields) => {
            lemma_rendered_commas(fields.keys, fields.data);
            lemma_count_char_concat(
                app_name + seq![','],
                rendered(fields.keys, fields.data),
                ',',
            );
        },
        None => {
            lemma_count_char_concat(app_name + seq![','], Seq::<char>::empty(), ',');
        },
    }
}

/// A layer admits a level exactly when it admits every level that is more
/// severe; one that admits up to `INFO` admits `ERROR`, `WARN` and `INFO`
/// and neither `DEBUG` nor `TRACE`.
pub proof fn lemma_level_filter(max_level: Level, level: Level, other: Level)
    ensures
        passes(max_level, level) && other.rank() <= level.rank() ==> passes(max_level, other),
        passes(max_level, max_level),
        passes(Level::INFO, level) <==> level == Level::ERROR || level == Level::WARN || level
            == Level::INFO,
        !passes(Level::INFO, Level::DEBUG),
        !passes(Level::INFO, Level::TRACE),
{
}

/// Concatenation may be regrouped.
proof fn lemma_concat_assoc(a: Seq<char>, b: Seq<char>, c: Seq<char>)
    ensures
        a + b + c == a + (b + c),
{
    assert(a + b + c =~= a + (b + c));
}

/// Appends `text` to a buffer that holds `start + acc`.
fn put(buf: &mut String, Ghost(start): Ghost<Seq<char>>, Ghost(acc): Ghost<Seq<char>>, text: &str)
    requires
        old(buf)@ == start + acc,
    ensures
        final(buf)@ == start + (acc + text@),
{
    buf.append(text);
    proof {
        lemma_concat_assoc(start, acc, text@);
    }
}

/// Appends `c` to a buffer that holds `start + acc`.
fn put_char(buf: &mut String, Ghost(start): Ghost<Seq<char>>, Ghost(acc): Ghost<Seq<char>>, c: char)
    requires
        old(buf)@ == start + acc,
    ensures
        final(buf)@ == start + (acc + seq![c]),
{
    buf.push(c);
    proof {
        assert((start + acc).push(c) =~= start + acc + seq![c]);
        lemma_concat_assoc(start, acc, seq![c]);
    }
}

/// Appends the message of an event to a buffer that holds `start + acc`.
fn put_message(
    buf: &mut String,
    Ghost(start): Ghost<Seq<char>>,
    Ghost(acc): Ghost<Seq<char>>,
    fields: &Vec<(String, String)>,
)
    requires
        old(buf)@ == start + acc,
    ensures
        final(buf)@ == start + (acc + message_text(pairs(fields@))),
{
    let mut i: usize = 0;
    proof {
        assert(acc + Seq::<char>::empty() =~= acc);
    }
    while i < fields.len()
        invariant
            i <= fields@.len(),
            buf@ == start + (acc + message_text(pairs(fields@.take(i as int)))),
        decreases fields@.len() - i,
    {
        let ghost done = message_text(pairs(fields@.take(i as int)));
        proof {
            let next = pairs(fields@.take(i + 1));
            assert(next.drop_last() =~= pairs(fields@.take(i as int)));
            assert(next.last() == (fields@[i as int].0@, fields@[i as int].1@));
            lemma_concat_assoc(start, acc, done);
        }
        record_message(buf, fields[i].0.as_str(), fields[i].1.as_str());
        proof {
            let text = if fields@[i as int].0@ == MESSAGE@ {
                fields@[i as int].1@
            } else {
                Seq::<char>::empty()
            };
            lemma_concat_assoc(start + acc, done, text);
            lemma_concat_assoc(start, acc, done + text);
        }
        i = i + 1;
    }
    proof {
        assert(fields@.take(i as int) =~= fields@);
    }
}

impl<W> FallLog<W> {
    /// Appends the bracketed part of a line to a buffer that holds
    /// `start + acc`.
    fn put_bracket(
        &self,
        buf: &mut String,
        Ghost(start): Ghost<Seq<char>>,
        Ghost(acc): Ghost<Seq<char>>,
        span: Option<&ExtendedLog>,
    )
        requires
            old(buf)@ == start + acc,
            span matches Some(bag) ==> bag.wf(),
        ensures
            final(buf)@ == start + (acc + bracket(self@.app_name, fields_of(span))),
    {
        let ghost name = self@.app_name;
        put(buf, Ghost(start), Ghost(acc), self.app_name.as_str());
        put_char(buf, Ghost(start), Ghost(acc + name), ',');
        match span {
            Some(bag) => {
                let text = bag.to_string();
                put(buf, Ghost(start), Ghost(acc + name + seq![',']), text.as_str());
                proof {
                    lemma_concat_assoc(acc, name, seq![',']);
                    lemma_concat_assoc(acc, name + seq![','], text@);
                }
            },
            None => {
                proof {
                    lemma_concat_assoc(acc, name, seq![',']);
                    assert(name + seq![','] + Seq::<char>::empty() =~= name + seq![',']);
                }
            },
        }
    }
}

/// Appends the value of an event field to `buf` if the field is named
/// `message`; any other field leaves `buf` as it is.
pub fn record_message(buf: &mut String, name: &str, value: &str)
    ensures
        final(buf)@ == old(buf)@ + if name@ == MESSAGE@ {
            value@
        } else {
            Seq::empty()
        },
{
    if name.to_owned() == MESSAGE.to_owned() {
        buf.append(value);
    } else {
        assert(buf@ + Seq::<char>::empty() =~= buf@);
    }
}

} // verus!
