//! Audit-line rules: status classification, result previews, and the record written for each
//! tool call.
use vstd::prelude::*;
use vstd::string::*;
use crate::text::{eq_ascii_case, eq_ignore_ascii_case, opt_string_view, owned, push_char, str_equal, has_prefix, trim, trimmed};

verus! {

/// Longest result preview kept in an audit line, in characters.
pub const PREVIEW_MAX_CHARS: usize = 512;

/// A lower-case hexadecimal digit.
pub open spec fn is_lower_hex(c: char) -> bool {
    let v = c as u32;
    (48 <= v <= 57) || (97 <= v <= 102)
}

/// The hyphenated lower-case text of a random (version 4, RFC 4122 variant) UUID:
/// `xxxxxxxx-xxxx-4xxx-Vxxx-xxxxxxxxxxxx` with `V` one of `8`, `9`, `a`, `b`.
pub open spec fn is_uuid_v4_text(s: Seq<char>) -> bool {
    &&& s.len() == 36
    &&& forall|i: int|
        0 <= i < 36 ==> if i == 8 || i == 13 || i == 18 || i == 23 {
            #[trigger] s[i] == '-'
        } else {
            is_lower_hex(s[i])
        }
    &&& s[14] == '4'
    &&& (s[19] == '8' || s[19] == '9' || s[19] == 'a' || s[19] == 'b')
}

/// Text of a fresh random UUID (`uuid::Uuid::new_v4`, written by its `Display`): only its
/// format is stated, since the value is random.
#[verifier::external_body]
fn random_uuid_text() -> (res: String)
    ensures
        is_uuid_v4_text(res@),
{
    uuid::Uuid::new_v4().to_string()
}

/// New unique id for one agent task (correlates its audit lines): a random UUID.
pub fn new_trace_id() -> (res: String)
    ensures
        is_uuid_v4_text(res@),
{
    random_uuid_text()
}

/// A tool result counts as an error when it starts with `Error:` or `MCP error:`.
pub open spec fn is_error_result(result: Seq<char>) -> bool {
    "Error:"@.is_prefix_of(result) || "MCP error:"@.is_prefix_of(result)
}

/// Status word recorded for a tool result.
pub open spec fn status_of(result: Seq<char>) -> Seq<char> {
    if is_error_result(result) {
        "tool_returned_error"@
    } else {
        "success"@
    }
}

/// The first `max` characters of `s`, followed by `…` when characters were cut.
pub open spec fn preview_text(s: Seq<char>, max: nat) -> Seq<char> {
    if s.len() > max {
        s.subrange(0, max as int).push('\u{2026}')
    } else {
        s
    }
}

/// A preview begins with the first `max` characters of the result (all of them when it is
/// shorter), is the result itself when nothing was cut, and is at most one character longer
/// than `max`.
pub proof fn lemma_preview_is_prefix(s: Seq<char>, max: nat)
    ensures
        preview_text(s, max).len() <= max + 1,
        s.len() <= max ==> preview_text(s, max) == s,
        s.len() > max ==> preview_text(s, max).take(max as int) == s.take(max as int),
        s.len() > max ==> preview_text(s, max).last() == '\u{2026}',
{
    if s.len() > max {
        assert(preview_text(s, max).take(max as int) =~= s.take(max as int));
    }
}

/// `tool_returned_error` for results that start with `Error:` or `MCP error:`, else `success`.
pub fn classify_status(result: &str) -> (status: &'static str)
    ensures
        status@ == status_of(result@),
{
    if has_prefix(result, "Error:") || has_prefix(result, "MCP error:") {
        "tool_returned_error"
    } else {
        "success"
    }
}

/// At most `max` characters of `s`; when more were there, `…` marks the cut.
pub fn truncate_preview(s: &str, max: usize) -> (res: String)
    ensures
        res@ == preview_text(s@, max as nat),
{
    let n = s.unicode_len();
    if n > max {
        let mut r = owned(s.substring_char(0, max));
        push_char(&mut r, '\u{2026}');
        r
    } else {
        owned(s)
    }
}

/// Preview of a tool result as kept in the audit log.
pub fn preview_result(result: &str) -> (res: String)
    ensures
        res@ == preview_text(result@, PREVIEW_MAX_CHARS as nat),
{
    truncate_preview(result, PREVIEW_MAX_CHARS)
}

/// What is known of one tool invocation when it starts.
pub struct AuditCall {
    /// User/chat session.
    pub session_id: String,
    /// One agent task.
    pub trace_id: String,
    /// The model's id for this tool step, when it gave a non-empty one.
    pub tool_call_id: Option<String>,
    /// RFC 3339 time of the start of the invocation.
    pub timestamp: String,
    /// UTC epoch milliseconds at the start of the invocation.
    pub invoked_at_ms: i64,
    /// Tool name as the model sees it.
    pub tool: String,
    /// Arguments as JSON text.
    pub arguments: String,
}

impl AuditCall {
    /// `timestamp` and `invoked_at_ms` are one instant.
    pub open spec fn same_instant(self) -> bool {
        self.timestamp@ == rfc3339_millis_text(self.invoked_at_ms)
    }
}

/// One audit line for a tool invocation.
pub struct ToolAuditRecord {
    pub session_id: String,
    pub trace_id: String,
    pub tool_call_id: Option<String>,
    pub timestamp: String,
    pub invoked_at_ms: i64,
    pub tool: String,
    /// Arguments as JSON text.
    pub arguments: String,
    /// `in_process` or `mcp`. A call that no backend takes is answered by the catalog itself,
    /// in process, and recorded as `in_process`.
    pub backend: String,
    /// For MCP backends, the server's own name of the tool.
    pub mcp_server_tool: Option<String>,
    /// Time spent in the backend, in nanoseconds.
    pub duration_ns: u64,
    /// `success`, `tool_returned_error` or `unknown_tool`.
    pub status: &'static str,
    /// Length of the result in UTF-8 bytes.
    pub result_length: usize,
    pub result_preview: String,
}

impl ToolAuditRecord {
    /// `timestamp` and `invoked_at_ms` are one instant.
    pub open spec fn same_instant(self) -> bool {
        self.timestamp@ == rfc3339_millis_text(self.invoked_at_ms)
    }

    /// The fields that come straight from the invocation.
    pub open spec fn describes(self, call: AuditCall) -> bool {
        &&& self.session_id == call.session_id
        &&& self.trace_id == call.trace_id
        &&& self.tool_call_id == call.tool_call_id
        &&& self.timestamp == call.timestamp
        &&& self.invoked_at_ms == call.invoked_at_ms
        &&& self.tool == call.tool
        &&& self.arguments == call.arguments
    }

    /// Record of an invocation that a backend answered with `out`.
    pub fn completed(
        call: AuditCall,
        backend: &str,
        mcp_server_tool: Option<String>,
        duration_ns: u64,
        out: &str,
    ) -> (rec: ToolAuditRecord)
        ensures
            rec.describes(call),
            rec.backend@ == backend@,
            rec.mcp_server_tool == mcp_server_tool,
            rec.duration_ns == duration_ns,
            rec.status@ == status_of(out@),
            rec.result_length == out.spec_bytes().len() as usize,
            rec.result_preview@ == preview_text(out@, PREVIEW_MAX_CHARS as nat),
    {
        ToolAuditRecord {
            session_id: call.session_id,
            trace_id: call.trace_id,
            tool_call_id: call.tool_call_id,
            timestamp: call.timestamp,
            invoked_at_ms: call.invoked_at_ms,
            tool: call.tool,
            arguments: call.arguments,
            backend: owned(backend),
            mcp_server_tool,
            duration_ns,
            status: classify_status(out),
            result_length: out.len(),
            result_preview: preview_result(out),
        }
    }

    /// Record of an invocation that no backend claimed: the catalog answers it in process.
    pub fn unknown_tool(call: AuditCall, duration_ns: u64) -> (rec: ToolAuditRecord)
        ensures
            rec.describes(call),
            rec.backend@ == "in_process"@,
            rec.mcp_server_tool is None,
            rec.duration_ns == duration_ns,
            rec.status@ == "unknown_tool"@,
            rec.result_length == 0,
            rec.result_preview@ == Seq::<char>::empty(),
    {
        ToolAuditRecord {
            session_id: call.session_id,
            trace_id: call.trace_id,
            tool_call_id: call.tool_call_id,
            timestamp: call.timestamp,
            invoked_at_ms: call.invoked_at_ms,
            tool: call.tool,
            arguments: call.arguments,
            backend: owned("in_process"),
            mcp_server_tool: None,
            duration_ns,
            status: "unknown_tool",
            result_length: 0,
            result_preview: String::new(),
        }
    }
}

/// Where audit lines go: daily files under a directory, or one fixed file.
pub enum AuditMode {
    /// `tool-audit-YYYY-MM-DD.log` under `dir`, a new file each UTC day.
    Daily { dir: String },
    /// One file, never rotated.
    Fixed { path: String },
}

/// What the file system says of a path when the log is configured.
pub struct PathFacts {
    pub exists: bool,
    pub is_dir: bool,
    pub is_file: bool,
}

/// Why a configured log path was refused.
pub enum AuditPathError {
    /// The path is empty.
    EmptyPath,
}

impl AuditPathError {
    /// The error's message.
    pub fn message(&self) -> (res: &'static str)
        ensures
            res@ == "empty AGENTLITE_TOOL_LOG path"@,
    {
        "empty AGENTLITE_TOOL_LOG path"
    }
}

/// Extension of the path's file name (`Path::extension`), on the platform the program runs
/// on.
pub uninterp spec fn path_extension(path: Seq<char>) -> Option<Seq<char>>;

/// The extension of the path's file name, by `std::path::Path::extension`.
#[verifier::external_body]
fn path_extension_of(path: &str) -> (res: Option<String>)
    ensures
        opt_string_view(res) == path_extension(path@),
{
    match std::path::Path::new(path).extension() {
        Some(e) => match e.to_str() {
            Some(t) => Some(t.to_owned()),
            None => None,
        },
        None => None,
    }
}

/// Whether the path names a `.log` file (extension `log` in any ASCII case).
pub open spec fn is_log_path(path: Seq<char>) -> bool {
    path_extension(path) matches Some(e) && eq_ascii_case(e, "log"@)
}

/// Whether the path's extension is `log`, in any ASCII case.
pub fn extension_is_log(path: &str) -> (res: bool)
    ensures
        res == is_log_path(path@),
{
    match path_extension_of(path) {
        Some(e) => eq_ignore_ascii_case(e.as_str(), "log"),
        None => false,
    }
}

/// The mode for a configured path: an existing directory gets daily files, an existing file
/// or a path ending in `.log` is one fixed file, anything else becomes a directory of daily
/// files.
pub open spec fn mode_for_path(path: Seq<char>, facts: PathFacts) -> (bool, Seq<char>) {
    if facts.exists && facts.is_dir {
        (true, path)
    } else if facts.exists && facts.is_file {
        (false, path)
    } else if is_log_path(path) {
        (false, path)
    } else {
        (true, path)
    }
}

/// `(daily, location)` of a mode.
pub open spec fn mode_view(mode: AuditMode) -> (bool, Seq<char>) {
    match mode {
        AuditMode::Daily { dir } => (true, dir@),
        AuditMode::Fixed { path } => (false, path@),
    }
}

/// The mode for a log path given by an embedding program.
pub fn audit_mode_for_path(path: &str, facts: &PathFacts) -> (res: AuditMode)
    ensures
        mode_view(res) == mode_for_path(path@, *facts),
{
    if facts.exists && facts.is_dir {
        AuditMode::Daily { dir: owned(path) }
    } else if facts.exists && facts.is_file {
        AuditMode::Fixed { path: owned(path) }
    } else if extension_is_log(path) {
        AuditMode::Fixed { path: owned(path) }
    } else {
        AuditMode::Daily { dir: owned(path) }
    }
}

/// The mode for the path in `AGENTLITE_TOOL_LOG`: refused when empty, else as
/// [`audit_mode_for_path`].
pub fn parse_env_path(path: &str, facts: &PathFacts) -> (res: Result<AuditMode, AuditPathError>)
    ensures
        match res {
            Ok(mode) => path@.len() > 0 && mode_view(mode) == mode_for_path(path@, *facts),
            Err(AuditPathError::EmptyPath) => path@.len() == 0,
        },
{
    if path.unicode_len() == 0 {
        return Err(AuditPathError::EmptyPath);
    }
    Ok(audit_mode_for_path(path, facts))
}

/// A value that switches an option off: empty, `disabled` in any ASCII case, or `0`.
pub open spec fn is_off_value(t: Seq<char>) -> bool {
    t.len() == 0 || eq_ascii_case(t, "disabled"@) || t == "0"@
}

/// Whether a (trimmed) value switches an option off.
pub fn is_off_token(t: &str) -> (res: bool)
    ensures
        res == is_off_value(t@),
{
    t.unicode_len() == 0 || eq_ignore_ascii_case(t, "disabled") || str_equal(t, "0")
}

/// What `AGENTLITE_TOOL_LOG` asks for.
pub enum AuditSetting {
    /// Unset: daily files under `logs` beside the executable.
    Default,
    /// Switched off.
    Disabled,
    /// A configured path (trimmed).
    Path(String),
}

/// What the value of `AGENTLITE_TOOL_LOG` asks for (`None` when unset).
pub open spec fn audit_setting_spec(env_value: Option<Seq<char>>) -> Option<Option<Seq<char>>> {
    match env_value {
        None => None,
        Some(v) => if is_off_value(trimmed(v)) {
            Some(None)
        } else {
            Some(Some(trimmed(v)))
        },
    }
}

/// `Default` as `None`, `Disabled` as `Some(None)`, a path as `Some(Some(path))`.
pub open spec fn setting_view(s: AuditSetting) -> Option<Option<Seq<char>>> {
    match s {
        AuditSetting::Default => None,
        AuditSetting::Disabled => Some(None),
        AuditSetting::Path(p) => Some(Some(p@)),
    }
}

/// What the value of `AGENTLITE_TOOL_LOG` asks for (`None` when it is unset).
pub fn audit_setting(env_value: Option<&str>) -> (res: AuditSetting)
    ensures
        setting_view(res) == audit_setting_spec(crate::text::opt_str_view(env_value)),
{
    match env_value {
        None => AuditSetting::Default,
        Some(v) => {
            let t = trim(v);
            if is_off_token(t) {
                AuditSetting::Disabled
            } else {
                AuditSetting::Path(owned(t))
            }
        },
    }
}

/// Leap years of the proleptic Gregorian calendar.
pub open spec fn is_leap_year(y: int) -> bool {
    y % 4 == 0 && (y % 100 != 0 || y % 400 == 0)
}

/// Number of days of a month.
pub open spec fn days_in_month(y: int, m: int) -> int {
    if m == 2 {
        if is_leap_year(y) {
            29
        } else {
            28
        }
    } else if m == 4 || m == 6 || m == 9 || m == 11 {
        30
    } else {
        31
    }
}

/// A calendar date within the years that `chrono::NaiveDate` holds.
pub open spec fn valid_date(y: int, m: int, d: int) -> bool {
    &&& -262143 <= y <= 262142
    &&& 1 <= m <= 12
    &&& 1 <= d <= days_in_month(y, m)
}

/// Decimal digit character.
pub open spec fn digit_char(n: int) -> char {
    (48 + n) as char
}

/// Two decimal digits of `n < 100`.
pub open spec fn two_digits(n: int) -> Seq<char> {
    seq![digit_char(n / 10), digit_char(n % 10)]
}

/// Decimal digits of `n`, without leading zeros.
pub open spec fn decimal(n: nat) -> Seq<char>
    decreases n,
{
    if n < 10 {
        seq![digit_char(n as int)]
    } else {
        decimal(n / 10).push(digit_char((n % 10) as int))
    }
}

/// `s` with zeros in front up to four characters.
pub open spec fn zero_pad4(s: Seq<char>) -> Seq<char> {
    if s.len() >= 4 {
        s
    } else {
        Seq::new((4 - s.len()) as nat, |i: int| '0') + s
    }
}

/// The year as chrono's `%Y` writes it: four digits for years 0 to 9999, else a sign and at
/// least four digits.
pub open spec fn year_text(y: int) -> Seq<char> {
    if 0 <= y <= 9999 {
        two_digits(y / 100) + two_digits(y % 100)
    } else if y < 0 {
        seq!['-'] + zero_pad4(decimal((-y) as nat))
    } else {
        seq!['+'] + zero_pad4(decimal(y as nat))
    }
}

/// `YYYY-MM-DD`, as chrono writes a date.
pub open spec fn date_text(y: int, m: int, d: int) -> Seq<char> {
    year_text(y) + seq!['-'] + two_digits(m) + seq!['-'] + two_digits(d)
}

/// A UTC calendar date.
#[derive(Clone, Copy, Debug, PartialEq, Eq, Structural)]
pub struct UtcDate {
    year: i32,
    month: u32,
    day: u32,
}

impl UtcDate {
    #[verifier::type_invariant]
    closed spec fn is_valid(self) -> bool {
        valid_date(self.year as int, self.month as int, self.day as int)
    }

    /// The date is a valid calendar date (always so for a value of this type).
    pub open spec fn valid(self) -> bool {
        valid_date(self.year_spec(), self.month_spec(), self.day_spec())
    }

    /// The year.
    pub closed spec fn year_spec(self) -> int {
        self.year as int
    }

    /// The month, 1 to 12.
    pub closed spec fn month_spec(self) -> int {
        self.month as int
    }

    /// The day of the month.
    pub closed spec fn day_spec(self) -> int {
        self.day as int
    }

    /// The date with this year, month and day, when there is one.
    pub fn from_ymd(year: i32, month: u32, day: u32) -> (res: Option<UtcDate>)
        ensures
            match res {
                Some(d) => valid_date(year as int, month as int, day as int) && d.year_spec()
                    == year && d.month_spec() == month && d.day_spec() == day,
                None => !valid_date(year as int, month as int, day as int),
            },
    {
        if year < -262143 || year > 262142 || month < 1 || month > 12 || day < 1 {
            return None;
        }
        let leap = year % 4 == 0 && (year % 100 != 0 || year % 400 == 0);
        assert(leap == is_leap_year(year as int)) by (nonlinear_arith)
            requires
                leap == (year % 4 == 0 && (year % 100 != 0 || year % 400 == 0)),
        ;
        let days: u32 = if month == 2 {
            if leap {
                29
            } else {
                28
            }
        } else if month == 4 || month == 6 || month == 9 || month == 11 {
            30
        } else {
            31
        };
        if day > days {
            return None;
        }
        Some(UtcDate { year, month, day })
    }

    /// The year.
    pub fn year(&self) -> (res: i32)
        ensures
            res == self.year_spec(),
    {
        self.year
    }

    /// The month, 1 to 12.
    pub fn month(&self) -> (res: u32)
        ensures
            res == self.month_spec(),
    {
        self.month
    }

    /// The day of the month.
    pub fn day(&self) -> (res: u32)
        ensures
            res == self.day_spec(),
    {
        self.day
    }
}

/// `YYYY-MM-DD` of a valid date, by chrono's `NaiveDate` `Display`.
#[verifier::external_body]
fn chrono_date_text(year: i32, month: u32, day: u32) -> (res: String)
    requires
        valid_date(year as int, month as int, day as int),
    ensures
        res@ == date_text(year as int, month as int, day as int),
{
    match chrono::NaiveDate::from_ymd_opt(year, month, day) {
        Some(d) => d.to_string(),
        None => String::new(),
    }
}

/// Three decimal digits of `n < 1000`.
pub open spec fn three_digits(n: int) -> Seq<char> {
    seq![digit_char(n / 100), digit_char((n / 10) % 10), digit_char(n % 10)]
}

/// Milliseconds in a day.
pub const MILLIS_PER_DAY: i64 = 86_400_000;

/// The instants, in epoch milliseconds, that an audit line can carry: about 253,000 years on
/// either side of 1970, well inside what chrono's `DateTime<Utc>` holds.
pub const AUDIT_MILLIS_LIMIT: i64 = 8_000_000_000_000_000;

/// The time of day of an instant given in UTC epoch milliseconds, as RFC 3339 writes it with
/// milliseconds and `Z`: `hh:mm:ss.mmmZ`.
pub open spec fn millis_time_text(ms: int) -> Seq<char> {
    let r = ms % (MILLIS_PER_DAY as int);
    two_digits(r / 3_600_000) + seq![':'] + two_digits((r / 60_000) % 60) + seq![':']
        + two_digits((r / 1000) % 60) + seq!['.'] + three_digits(r % 1000) + seq!['Z']
}

/// The calendar date, as chrono writes it in RFC 3339, of the UTC instant `ms` epoch
/// milliseconds (chrono's calendar computation).
pub uninterp spec fn utc_date_text_of_millis(ms: i64) -> Seq<char>;

/// The RFC 3339 text, with milliseconds and `Z`, of the UTC instant `ms` epoch milliseconds.
pub open spec fn rfc3339_millis_text(ms: i64) -> Seq<char> {
    utc_date_text_of_millis(ms) + seq!['T'] + millis_time_text(ms as int)
}

/// chrono's `DateTime::<Utc>::from_timestamp_millis(ms)` written by `to_rfc3339_opts` with
/// milliseconds and `Z`. Within the limit the instant exists; the text is the date (named:
/// chrono computes the calendar date), `T`, and the time of day, which is the remainder of
/// `ms` modulo a day (Euclidean, as chrono takes it) in hours, minutes, seconds, milliseconds.
#[verifier::external_body]
fn chrono_rfc3339_millis(ms: i64) -> (res: String)
    requires
        -AUDIT_MILLIS_LIMIT <= ms <= AUDIT_MILLIS_LIMIT,
    ensures
        res@ == utc_date_text_of_millis(ms) + seq!['T'] + millis_time_text(ms as int),
{
    match chrono::DateTime::<chrono::Utc>::from_timestamp_millis(ms) {
        Some(t) => t.to_rfc3339_opts(chrono::SecondsFormat::Millis, true),
        None => String::new(),
    }
}

/// The `timestamp` of an audit line whose `invoked_at_ms` is `invoked_at_ms`: the same
/// instant as RFC 3339 text with milliseconds, in UTC.
pub fn invocation_timestamp(invoked_at_ms: i64) -> (res: String)
    requires
        -AUDIT_MILLIS_LIMIT <= invoked_at_ms <= AUDIT_MILLIS_LIMIT,
    ensures
        res@ == rfc3339_millis_text(invoked_at_ms),
{
    chrono_rfc3339_millis(invoked_at_ms)
}

proof fn lemma_decimal_shape(n: nat)
    ensures
        decimal(n).len() >= 1,
        n >= 10 ==> decimal(n).len() >= 2,
        n >= 1 ==> decimal(n)[0] != '0',
    decreases n,
{
    if n >= 10 {
        lemma_decimal_shape(n / 10);
        assert(decimal(n)[0] == decimal(n / 10)[0]);
    }
}

proof fn lemma_decimal_injective(a: nat, b: nat)
    requires
        decimal(a) == decimal(b),
    ensures
        a == b,
    decreases a,
{
    lemma_decimal_shape(a);
    lemma_decimal_shape(b);
    if a < 10 {
        if b >= 10 {
            assert(decimal(b).len() >= 2);
        }
        assert(decimal(a)[0] == digit_char(a as int));
        assert(decimal(b)[0] == digit_char(b as int));
    } else {
        if b < 10 {
            assert(decimal(a).len() >= 2);
        }
        assert(decimal(a).last() == decimal(b).last());
        assert(decimal(a).drop_last() =~= decimal(a / 10));
        assert(decimal(b).drop_last() =~= decimal(b / 10));
        lemma_decimal_injective(a / 10, b / 10);
        assert(decimal(a).last() == digit_char((a % 10) as int));
        assert(decimal(b).last() == digit_char((b % 10) as int));
        assert(a == 10 * (a / 10) + a % 10);
        assert(b == 10 * (b / 10) + b % 10);
    }
}

proof fn lemma_pad_injective(s: Seq<char>, t: Seq<char>)
    requires
        s.len() >= 1,
        t.len() >= 1,
        s[0] != '0',
        t[0] != '0',
        zero_pad4(s) == zero_pad4(t),
    ensures
        s == t,
{
    if s.len() >= 4 && t.len() >= 4 {
    } else if s.len() >= 4 {
        assert(zero_pad4(t)[0] == '0');
    } else if t.len() >= 4 {
        assert(zero_pad4(s)[0] == '0');
    } else {
        let p = 4 - s.len();
        let q = 4 - t.len();
        if p < q {
            assert(zero_pad4(s)[p] == s[0]);
            assert(zero_pad4(t)[p] == '0');
        } else if q < p {
            assert(zero_pad4(t)[q] == t[0]);
            assert(zero_pad4(s)[q] == '0');
        } else {
            assert(s =~= zero_pad4(s).subrange(p, 4));
            assert(t =~= zero_pad4(t).subrange(q, 4));
        }
    }
}

proof fn lemma_two_digits_injective(a: int, b: int)
    requires
        0 <= a < 100,
        0 <= b < 100,
        two_digits(a) == two_digits(b),
    ensures
        a == b,
{
    assert(two_digits(a)[0] == two_digits(b)[0]);
    assert(two_digits(a)[1] == two_digits(b)[1]);
    assert(a == 10 * (a / 10) + a % 10);
    assert(b == 10 * (b / 10) + b % 10);
}

proof fn lemma_year_text_injective(a: int, b: int)
    requires
        -262143 <= a <= 262142,
        -262143 <= b <= 262142,
        year_text(a) == year_text(b),
    ensures
        a == b,
{
    if a < 0 {
        lemma_decimal_shape((-a) as nat);
    }
    if b < 0 {
        lemma_decimal_shape((-b) as nat);
    }
    if a > 9999 {
        lemma_decimal_shape(a as nat);
    }
    if b > 9999 {
        lemma_decimal_shape(b as nat);
    }
    let ta = year_text(a);
    let tb = year_text(b);
    assert(ta[0] == tb[0]);
    if 0 <= a <= 9999 && 0 <= b <= 9999 {
        assert(ta.subrange(0, 2) =~= two_digits(a / 100));
        assert(tb.subrange(0, 2) =~= two_digits(b / 100));
        assert(ta.subrange(2, 4) =~= two_digits(a % 100));
        assert(tb.subrange(2, 4) =~= two_digits(b % 100));
        lemma_two_digits_injective(a / 100, b / 100);
        lemma_two_digits_injective(a % 100, b % 100);
    } else if a < 0 && b < 0 {
        assert(ta.drop_first() =~= zero_pad4(decimal((-a) as nat)));
        assert(tb.drop_first() =~= zero_pad4(decimal((-b) as nat)));
        lemma_pad_injective(decimal((-a) as nat), decimal((-b) as nat));
        lemma_decimal_injective((-a) as nat, (-b) as nat);
    } else if a > 9999 && b > 9999 {
        lemma_decimal_shape((a / 10) as nat);
        lemma_decimal_shape((b / 10) as nat);
        assert(ta.drop_first() =~= zero_pad4(decimal(a as nat)));
        assert(tb.drop_first() =~= zero_pad4(decimal(b as nat)));
        lemma_pad_injective(decimal(a as nat), decimal(b as nat));
        lemma_decimal_injective(a as nat, b as nat);
    } else {
        assert(two_digits(a / 100)[0] == ta[0] || two_digits(b / 100)[0] == tb[0]);
    }
}

/// Different valid dates are written differently.
pub proof fn lemma_date_text_injective(y1: int, m1: int, d1: int, y2: int, m2: int, d2: int)
    requires
        valid_date(y1, m1, d1),
        valid_date(y2, m2, d2),
        date_text(y1, m1, d1) == date_text(y2, m2, d2),
    ensures
        y1 == y2 && m1 == m2 && d1 == d2,
{
    let t1 = date_text(y1, m1, d1);
    let t2 = date_text(y2, m2, d2);
    let n = t1.len();
    let k1 = year_text(y1).len();
    let k2 = year_text(y2).len();
    assert(n == k1 + 6 && n == k2 + 6);
    assert(t1.subrange(n - 2, n as int) =~= two_digits(d1));
    assert(t2.subrange(n - 2, n as int) =~= two_digits(d2));
    assert(t1.subrange(n - 5, n - 3) =~= two_digits(m1));
    assert(t2.subrange(n - 5, n - 3) =~= two_digits(m2));
    assert(t1.subrange(0, n - 6) =~= year_text(y1));
    assert(t2.subrange(0, n - 6) =~= year_text(y2));
    lemma_two_digits_injective(d1, d2);
    lemma_two_digits_injective(m1, m2);
    lemma_year_text_injective(y1, y2);
}

/// Name of the daily log file for a date: `tool-audit-YYYY-MM-DD.log`.
pub open spec fn daily_file_text(d: UtcDate) -> Seq<char> {
    "tool-audit-"@ + date_text(d.year_spec(), d.month_spec(), d.day_spec()) + ".log"@
}

/// Name of the daily log file for a date: `tool-audit-YYYY-MM-DD.log`.
pub fn daily_filename(date: UtcDate) -> (res: String)
    ensures
        res@ == daily_file_text(date),
{
    proof {
        use_type_invariant(&date);
    }
    let mut r = owned("tool-audit-");
    r.append(chrono_date_text(date.year, date.month, date.day).as_str());
    r.append(".log");
    r
}

/// Each UTC day has its own daily log file: different days never share a file name.
pub proof fn lemma_daily_files_differ(a: UtcDate, b: UtcDate)
    requires
        a.valid(),
        b.valid(),
        a != b,
    ensures
        daily_file_text(a) != daily_file_text(b),
{
    if daily_file_text(a) == daily_file_text(b) {
        let ta = date_text(a.year_spec(), a.month_spec(), a.day_spec());
        let tb = date_text(b.year_spec(), b.month_spec(), b.day_spec());
        let pre = "tool-audit-"@;
        let post = ".log"@;
        assert(daily_file_text(a).len() == daily_file_text(b).len());
        assert(ta =~= daily_file_text(a).subrange(pre.len() as int, (pre.len() + ta.len()) as int));
        assert(tb =~= daily_file_text(b).subrange(pre.len() as int, (pre.len() + tb.len()) as int));
        lemma_date_text_injective(
            a.year_spec(),
            a.month_spec(),
            a.day_spec(),
            b.year_spec(),
            b.month_spec(),
            b.day_spec(),
        );
        assert(a == b);
    }
}

/// Whether the open log file must be replaced: daily files, and the UTC day has changed.
pub fn needs_rotation(mode: &AuditMode, open_date: UtcDate, today: UtcDate) -> (res: bool)
    ensures
        res == (mode is Daily && open_date != today),
{
    match mode {
        AuditMode::Daily { .. } => open_date != today,
        AuditMode::Fixed { .. } => false,
    }
}

} // verus!
