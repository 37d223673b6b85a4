//! Laws of the operator's command line: what a table shows and where, which request is
//! made, and what is said of the answer.
use crate::cli::{self, ReplyError, Revocation};
use crate::encoding;
use crate::http::Response;
use crate::plugin::{self, PluginKind, PluginMetadata};
use crate::{json, text};
use vstd::prelude::*;
use vstd::utf8;

verus! {

/// A column is its text and then spaces up to its width; text that is as long is as it
/// is.
pub proof fn law_column_is_filled_with_spaces(s: Seq<char>, width: nat)
    ensures
        ({
            let column = cli::padded(s, width);
            &&& column.len() >= s.len() && column.len() >= width
            &&& column.len() == s.len() || column.len() == width
            &&& column.take(s.len() as int) == s
            &&& forall|i: int| s.len() <= i < column.len() ==> #[trigger] column[i] == ' '
        }),
{
    assert(cli::padded(s, width).take(s.len() as int) =~= s);
}

/// A line is its cells in order, each in its column, with the gap between two; the last
/// is as it is.
pub proof fn law_line_is_its_cells_in_order(
    cells: &[&str],
    widths: &[usize],
    gap: &str,
    line: String,
)
    requires
        cells@.len() <= widths@.len() + 1,
        call_ensures(cli::layout, (cells, widths, gap), line),
    ensures
        cells@.len() == 0 ==> line@.len() == 0,
        cells@.len() == 1 ==> line@ == cells@[0]@,
        cells@.len() == 2 ==> line@ == cli::padded(cells@[0]@, widths@[0] as nat) + gap@
            + cells@[1]@,
        cells@.len() == 3 ==> line@ == cli::padded(cells@[0]@, widths@[0] as nat) + gap@ + (
        cli::padded(cells@[1]@, widths@[1] as nat) + gap@ + cells@[2]@),
{
    let all = plugin::slices(cells@);
    reveal_with_fuel(cli::table_line, 4);
    if cells@.len() == 2 {
        assert(all.skip(1).len() == 1 && all.skip(1)[0] == cells@[1]@);
    }
    if cells@.len() == 3 {
        assert(all.skip(1)[0] == cells@[1]@);
        assert(all.skip(1).skip(1)[0] == cells@[2]@);
        assert(widths@.skip(1)[0] == widths@[1]);
    }
}

proof fn lemma_four_cells(cells: Seq<Seq<char>>, widths: Seq<usize>, gap: Seq<char>)
    requires
        cells.len() == 4,
        widths.len() == 3,
    ensures
        cli::table_line(cells, widths, gap) == cli::padded(cells[0], widths[0] as nat) + gap + (
        cli::padded(cells[1], widths[1] as nat) + gap + (cli::padded(cells[2], widths[2] as nat)
            + gap + cells[3])),
{
    reveal_with_fuel(cli::table_line, 5);
    let c1 = cells.skip(1);
    let c2 = c1.skip(1);
    let c3 = c2.skip(1);
    let w1 = widths.skip(1);
    let w2 = w1.skip(1);
    assert(c1[0] == cells[1] && c2[0] == cells[2] && c3[0] == cells[3]);
    assert(w1[0] == widths[1] && w2[0] == widths[2]);
    assert(cli::table_line(c3, w2.skip(1), gap) == cells[3]);
    assert(cli::table_line(c2, w2, gap) == cli::padded(cells[2], widths[2] as nat) + gap
        + cells[3]);
}

proof fn lemma_five_cells(cells: Seq<Seq<char>>, widths: Seq<usize>, gap: Seq<char>)
    requires
        cells.len() == 5,
        widths.len() == 4,
    ensures
        cli::table_line(cells, widths, gap) == cli::padded(cells[0], widths[0] as nat) + gap + (
        cli::padded(cells[1], widths[1] as nat) + gap + (cli::padded(cells[2], widths[2] as nat)
            + gap + (cli::padded(cells[3], widths[3] as nat) + gap + cells[4]))),
{
    lemma_four_cells(cells.skip(1), widths.skip(1), gap);
    assert(cells.skip(1)[0] == cells[1] && cells.skip(1)[1] == cells[2]);
    assert(cells.skip(1)[2] == cells[3] && cells.skip(1)[3] == cells[4]);
    assert(widths.skip(1)[0] == widths[1] && widths.skip(1)[1] == widths[2]);
    assert(widths.skip(1)[2] == widths[3]);
}

/// Text that fits stays; longer text is cut to the columns there are, with an ellipsis in
/// the last.
pub proof fn law_overflow_ends_in_an_ellipsis(s: &str, max: usize, out: String)
    requires
        call_ensures(cli::truncate, (s, max), out),
    ensures
        out@ == cli::truncated(s@, max as nat),
        out@.len() <= max,
        s@.len() <= max ==> out@ == s@,
        s@.len() > max && max > 0 ==> out@.len() == max && out@[max - 1] == '\u{2026}'
            && forall|i: int| 0 <= i < max - 1 ==> #[trigger] out@[i] == s@[i],
{
}

/// The tables of tokens: token, use, label and time, under their names.
pub proof fn law_token_lines(
    head: String,
    token: &str,
    used: bool,
    label: &str,
    created_at_ns: u64,
    line: String,
)
    requires
        call_ensures(cli::token_header, (), head),
        call_ensures(cli::token_line, (token, used, label, created_at_ns), line),
    ensures
        head@ == cli::padded("TOKEN"@, 64) + "  "@ + (cli::padded("USED"@, 6) + "  "@ + (
        cli::padded("LABEL"@, 20) + "  "@ + "CREATED_AT_NS"@)),
        line@ == cli::padded(token@, 64) + "  "@ + (cli::padded(
            if used {
                "true"@
            } else {
                "false"@
            },
            6,
        ) + "  "@ + (cli::padded(cli::truncated(label@, 20), 20) + "  "@ + text::decimal(
            created_at_ns as nat,
        ))),
{
    lemma_four_cells(
        seq!["TOKEN"@, "USED"@, "LABEL"@, "CREATED_AT_NS"@],
        seq![64usize, 6, 20],
        "  "@,
    );
    lemma_four_cells(
        seq![
            token@,
            cli::bool_chars(used),
            cli::truncated(label@, 20),
            text::decimal(created_at_ns as nat),
        ],
        seq![64usize, 6, 20],
        "  "@,
    );
}

/// The tables of agents: identifier, host, system and when it was last seen, under their
/// names.
pub proof fn law_agent_lines(
    head: String,
    agent_id: &str,
    hostname: &str,
    os: &str,
    last_seen_ns: u64,
    line: String,
)
    requires
        call_ensures(cli::agent_header, (), head),
        call_ensures(cli::agent_line, (agent_id, hostname, os, last_seen_ns), line),
    ensures
        head@ == cli::padded("AGENT_ID"@, 36) + "  "@ + (cli::padded("HOSTNAME"@, 24) + "  "@ + (
        cli::padded("OS"@, 10) + "  "@ + "LAST_SEEN_NS"@)),
        line@ == cli::padded(agent_id@, 36) + "  "@ + (cli::padded(
            cli::truncated(hostname@, 24),
            24,
        ) + "  "@ + (cli::padded(cli::truncated(os@, 10), 10) + "  "@ + text::decimal(
            last_seen_ns as nat,
        ))),
{
    lemma_four_cells(
        seq!["AGENT_ID"@, "HOSTNAME"@, "OS"@, "LAST_SEEN_NS"@],
        seq![36usize, 24, 10],
        "  "@,
    );
    lemma_four_cells(
        seq![
            agent_id@,
            cli::truncated(hostname@, 24),
            cli::truncated(os@, 10),
            text::decimal(last_seen_ns as nat),
        ],
        seq![36usize, 24, 10],
        "  "@,
    );
}

/// The tables of alerts: severity, title, agent, acknowledgement and time, under their
/// names.
pub proof fn law_alert_lines(
    head: String,
    severity: &str,
    title: &str,
    agent_id: &str,
    acknowledged: bool,
    ts_ns: u64,
    line: String,
)
    requires
        call_ensures(cli::alert_header, (), head),
        call_ensures(cli::alert_line, (severity, title, agent_id, acknowledged, ts_ns), line),
    ensures
        head@ == cli::padded("SEVERITY"@, 10) + "  "@ + (cli::padded("TITLE"@, 30) + "  "@ + (
        cli::padded("AGENT_ID"@, 36) + "  "@ + (cli::padded("ACK"@, 5) + "  "@ + "TS_NS"@))),
        line@ == cli::padded(cli::truncated(severity@, 10), 10) + "  "@ + (cli::padded(
            cli::truncated(title@, 30),
            30,
        ) + "  "@ + (cli::padded(agent_id@, 36) + "  "@ + (cli::padded(
            if acknowledged {
                "true"@
            } else {
                "false"@
            },
            5,
        ) + "  "@ + text::decimal(ts_ns as nat)))),
{
    lemma_five_cells(
        seq!["SEVERITY"@, "TITLE"@, "AGENT_ID"@, "ACK"@, "TS_NS"@],
        seq![10usize, 30, 36, 5],
        "  "@,
    );
    lemma_five_cells(
        seq![
            cli::truncated(severity@, 10),
            cli::truncated(title@, 30),
            agent_id@,
            cli::bool_chars(acknowledged),
            text::decimal(ts_ns as nat),
        ],
        seq![10usize, 30, 36, 5],
        "  "@,
    );
}

/// The tables of scores: agent, subject, score and time, under their names.
pub proof fn law_score_lines(
    head: String,
    agent_id: &str,
    subject: &str,
    score: &str,
    ts_ns: u64,
    line: String,
)
    requires
        call_ensures(cli::score_header, (), head),
        call_ensures(cli::score_line, (agent_id, subject, score, ts_ns), line),
    ensures
        head@ == cli::padded("AGENT_ID"@, 36) + "  "@ + (cli::padded("SUBJECT"@, 30) + "  "@ + (
        cli::padded("SCORE"@, 10) + "  "@ + "TS_NS"@)),
        line@ == cli::padded(agent_id@, 36) + "  "@ + (cli::padded(
            cli::truncated(subject@, 30),
            30,
        ) + "  "@ + (cli::padded(cli::truncated(score@, 10), 10) + "  "@ + text::decimal(
            ts_ns as nat,
        ))),
{
    lemma_four_cells(
        seq!["AGENT_ID"@, "SUBJECT"@, "SCORE"@, "TS_NS"@],
        seq![36usize, 30, 10],
        "  "@,
    );
    lemma_four_cells(
        seq![
            agent_id@,
            cli::truncated(subject@, 30),
            cli::truncated(score@, 10),
            text::decimal(ts_ns as nat),
        ],
        seq![36usize, 30, 10],
        "  "@,
    );
}

/// The tables of detections: agent, subject, verdict, confidence and time, under their
/// names.
pub proof fn law_detection_lines(
    head: String,
    agent_id: &str,
    subject: &str,
    verdict: &str,
    confidence: &str,
    ts_ns: u64,
    line: String,
)
    requires
        call_ensures(cli::detection_header, (), head),
        call_ensures(
            cli::detection_line,
            (agent_id, subject, verdict, confidence, ts_ns),
            line,
        ),
    ensures
        head@ == cli::padded("AGENT_ID"@, 36) + "  "@ + (cli::padded("SUBJECT"@, 30) + "  "@ + (
        cli::padded("VERDICT"@, 10) + "  "@ + (cli::padded("CONFIDENCE"@, 10) + "  "@ + "TS_NS"@))),
        line@ == cli::padded(agent_id@, 36) + "  "@ + (cli::padded(
            cli::truncated(subject@, 30),
            30,
        ) + "  "@ + (cli::padded(cli::truncated(verdict@, 10), 10) + "  "@ + (cli::padded(
            cli::truncated(confidence@, 10),
            10,
        ) + "  "@ + text::decimal(ts_ns as nat)))),
{
    lemma_five_cells(
        seq!["AGENT_ID"@, "SUBJECT"@, "VERDICT"@, "CONFIDENCE"@, "TS_NS"@],
        seq![36usize, 30, 10, 10],
        "  "@,
    );
    lemma_five_cells(
        seq![
            agent_id@,
            cli::truncated(subject@, 30),
            cli::truncated(verdict@, 10),
            cli::truncated(confidence@, 10),
            text::decimal(ts_ns as nat),
        ],
        seq![36usize, 30, 10, 10],
        "  "@,
    );
}

/// The tables of plugins: name, role, version and description, under their names.
pub proof fn law_plugin_lines(head: String, meta: &PluginMetadata, line: String, role: &str)
    requires
        call_ensures(cli::plugin_header, (), head),
        call_ensures(cli::plugin_line, (meta,), line),
        meta.kind == PluginKind::Collector ==> role@ == "Collector"@,
        meta.kind == PluginKind::Processor ==> role@ == "Processor"@,
        meta.kind == PluginKind::Sink ==> role@ == "Sink"@,
        meta.kind == PluginKind::Control ==> role@ == "Control"@,
    ensures
        head@ == cli::padded("NAME"@, 24) + " "@ + (cli::padded("KIND"@, 10) + " "@ + (cli::padded(
            "VERSION"@,
            8,
        ) + " "@ + "DESCRIPTION"@)),
        line@ == cli::padded(meta.name@, 24) + " "@ + (cli::padded(role@, 10) + " "@ + (
        cli::padded(meta.version@, 8) + " "@ + meta.description@)),
{
    lemma_four_cells(
        seq!["NAME"@, "KIND"@, "VERSION"@, "DESCRIPTION"@],
        seq![24usize, 10, 8],
        " "@,
    );
    lemma_four_cells(
        seq![meta.name@, cli::kind_chars(meta.kind), meta.version@, meta.description@],
        seq![24usize, 10, 8],
        " "@,
    );
}

/// The roles have their names.
pub proof fn law_role_names(kind: PluginKind, name: &'static str)
    requires
        call_ensures(cli::kind_name, (kind,), name),
    ensures
        kind == PluginKind::Collector ==> name@ == "Collector"@,
        kind == PluginKind::Processor ==> name@ == "Processor"@,
        kind == PluginKind::Sink ==> name@ == "Sink"@,
        kind == PluginKind::Control ==> name@ == "Control"@,
{
}

/// The version text names this build, the contract and the protocol.
pub proof fn law_version_text(version: &str, out: String)
    requires
        call_ensures(cli::version_text, (version,), out),
    ensures
        out@ == "aegisctl "@ + version@ + "\nplugin API version "@ + text::decimal(1)
            + "\nwire protocol version "@ + text::decimal(1),
{
}

/// Letters, digits, hyphen, underscore, full stop and tilde are written as they are; any
/// other byte as a percent sign and its two hexadecimal digits.
pub proof fn law_bytes_are_escaped_one_by_one(
    s: &str,
    out: String,
    head: Seq<u8>,
    b: u8,
)
    requires
        call_ensures(cli::percent_encode, (s,), out),
    ensures
        out@ == cli::escaped(utf8::encode_utf8(s@)),
        cli::escaped(Seq::empty()).len() == 0,
        ({
            let c = b as char;
            let kept = 'a' <= c <= 'z' || 'A' <= c <= 'Z' || '0' <= c <= '9' || c == '-' || c == '_'
                || c == '.' || c == '~';
            let tail = cli::escaped(head.push(b)).skip(cli::escaped(head).len() as int);
            &&& cli::escaped(head.push(b)).take(cli::escaped(head).len() as int) == cli::escaped(
                head,
            )
            &&& kept ==> tail == seq![c]
            &&& !kept ==> {
                &&& tail.len() == 3
                &&& tail[0] == '%'
                &&& !('a' <= tail[1] <= 'f') && !('a' <= tail[2] <= 'f')
                &&& encoding::is_hex_char(tail[1]) && encoding::is_hex_char(tail[2])
                &&& encoding::hex_value(tail[1]) * 16 + encoding::hex_value(tail[2]) == b
            }
        }),
{
    let all = head.push(b);
    assert(all.drop_last() =~= head);
    let before = cli::escaped(head);
    assert(cli::escaped(all) == before + cli::escaped_byte(b));
    assert(cli::escaped(all).take(before.len() as int) =~= before);
    assert(cli::escaped(all).skip(before.len() as int) =~= cli::escaped_byte(b));
}

/// A path without pairs stays; the first pair follows a question mark, and each further
/// one an ampersand; name and value are escaped, with an equals sign between them.
pub proof fn law_query_is_its_pairs(
    path: &str,
    none: &Vec<(String, String)>,
    bare: String,
    few: &Vec<(String, String)>,
    shorter: String,
    more: &Vec<(String, String)>,
    longer: String,
    name: String,
    value: String,
)
    requires
        none@.len() == 0,
        call_ensures(cli::with_query, (path, none), bare),
        call_ensures(cli::with_query, (path, few), shorter),
        more@.len() == few@.len() + 1,
        forall|i: int| 0 <= i < few@.len() ==> (#[trigger] more@[i]).0@ == few@[i].0@ && more@[i].1@
            == few@[i].1@,
        call_ensures(cli::with_query, (path, more), longer),
        name@ == cli::escaped(utf8::encode_utf8(more@[few@.len() as int].0@)),
        value@ == cli::escaped(utf8::encode_utf8(more@[few@.len() as int].1@)),
    ensures
        bare@ == path@,
        few@.len() == 0 ==> longer@ == path@ + seq!['?'] + (name@ + seq!['='] + value@),
        few@.len() > 0 ==> longer@ == shorter@ + seq!['&'] + (name@ + seq!['='] + value@),
{
    let a = cli::pair_views(few@);
    let b = cli::pair_views(more@);
    assert(b.drop_last() =~= a) by {
        assert forall|i: int| 0 <= i < a.len() implies #[trigger] b.drop_last()[i] == a[i] by {
            assert(more@[i].0@ == few@[i].0@);
        }
    }
    assert(b.last() == (more@[few@.len() as int].0@, more@[few@.len() as int].1@));
    if few@.len() > 0 {
        assert(longer@ =~= shorter@ + seq!['&'] + (name@ + seq!['='] + value@));
    }
}

/// The requests for alerts, scores and detections carry the filters that are given under
/// their names, in order; a listing of one agent is a path of its own.
pub proof fn law_filters_become_queries(
    limit: Option<usize>,
    severity: Option<&str>,
    unacknowledged: bool,
    alerts: String,
    alert_filters: &Vec<(String, String)>,
    alert_query: String,
    min_score: Option<&str>,
    scores: String,
    score_filters: &Vec<(String, String)>,
    score_query: String,
    verdict: Option<&str>,
    min_confidence: Option<&str>,
    detections: String,
    detection_filters: &Vec<(String, String)>,
    detection_query: String,
)
    requires
        call_ensures(cli::alerts_path, (limit, severity, unacknowledged), alerts),
        cli::pair_views(alert_filters@) == given(
            "limit"@,
            match limit {
                Some(n) => Some(text::decimal(n as nat)),
                None => None,
            },
        ) + given("severity"@, cli::opt_str(severity)) + given(
            "acknowledged"@,
            if unacknowledged {
                Some("false"@)
            } else {
                None
            },
        ),
        call_ensures(cli::with_query, ("/api/v1/alerts", alert_filters), alert_query),
        call_ensures(cli::scores_path, (None::<&str>, min_score), scores),
        cli::pair_views(score_filters@) == given("min_score"@, cli::opt_str(min_score)),
        call_ensures(cli::with_query, ("/api/v1/scores", score_filters), score_query),
        call_ensures(cli::detections_path, (None::<&str>, verdict, min_confidence), detections),
        cli::pair_views(detection_filters@) == given("verdict"@, cli::opt_str(verdict)) + given(
            "min_confidence"@,
            cli::opt_str(min_confidence),
        ),
        call_ensures(cli::with_query, ("/api/v1/detections", detection_filters), detection_query),
    ensures
        alerts@ == alert_query@,
        scores@ == score_query@,
        detections@ == detection_query@,
{
    assert(cli::pair_views(alert_filters@) =~= cli::alert_pairs(
        limit,
        match severity {
            Some(s) => Some(s@),
            None => None,
        },
        unacknowledged,
    ));
    assert(cli::pair_views(score_filters@) =~= cli::opt_pair(
        "min_score"@,
        cli::opt_str(min_score),
    ));
    assert(cli::pair_views(detection_filters@) =~= cli::opt_pair(
        "verdict"@,
        cli::opt_str(verdict),
    ) + cli::opt_pair("min_confidence"@, cli::opt_str(min_confidence)));
}

/// A filter of this name, if there is a value for it.
pub open spec fn given(name: Seq<char>, value: Option<Seq<char>>) -> Seq<(Seq<char>, Seq<char>)> {
    if value is Some {
        seq![(name, value.unwrap())]
    } else {
        Seq::empty()
    }
}

/// The paths of one agent's listings and of one token.
pub proof fn law_paths_of_one(
    agent: &str,
    min_score: Option<&str>,
    scores: String,
    verdict: Option<&str>,
    min_confidence: Option<&str>,
    detections: String,
    token: &str,
    path: String,
)
    requires
        call_ensures(cli::scores_path, (Some(agent), min_score), scores),
        call_ensures(cli::detections_path, (Some(agent), verdict, min_confidence), detections),
        call_ensures(cli::token_path, (token,), path),
    ensures
        scores@ == "/api/v1/scores/"@ + agent@,
        detections@ == "/api/v1/detections/"@ + agent@,
        path@ == "/api/v1/tokens/"@ + token@,
{
}

/// A table of tokens has a line for its header and one for each item, in order, of the
/// item's own members.
pub proof fn law_token_table(
    body: &[u8],
    lines: Vec<String>,
    head: String,
    i: int,
    token: &str,
    used: bool,
    label: &str,
    created: u64,
    line: String,
)
    requires
        call_ensures(cli::token_table, (body,), lines),
        call_ensures(cli::token_header, (), head),
        json::array_len(body@) is Some,
        0 <= i < json::array_len(body@).unwrap(),
        shows_text(json::string_members(body@, "token"@), i, token@),
        shows_flag(json::bool_members(body@, "used"@), i, used),
        shows_text(json::string_members(body@, "label"@), i, label@),
        shows_number(json::number_members(body@, "created_at_ns"@), i, created),
        call_ensures(cli::token_line, (token, used, label, created), line),
    ensures
        lines@.len() == 1 + json::array_len(body@).unwrap(),
        lines@[0]@ == head@,
        lines@[i + 1]@ == line@,
{
    let views = cli::line_views(lines@);
    assert(views.len() == 1 + json::array_len(body@).unwrap());
    assert(views[0] == lines@[0]@);
    assert(cli::shown(json::string_members(body@, "token"@).unwrap()[i]) =~= token@);
    assert(cli::shown(json::string_members(body@, "label"@).unwrap()[i]) =~= label@);
    assert(views[i + 1] == lines@[i + 1]@);
}

/// A table of agents has a line for its header and one for each item, in order, of the
/// item's own members.
pub proof fn law_agent_table(
    body: &[u8],
    lines: Vec<String>,
    head: String,
    i: int,
    agent_id: &str,
    hostname: &str,
    os: &str,
    seen: u64,
    line: String,
)
    requires
        call_ensures(cli::agent_table, (body,), lines),
        call_ensures(cli::agent_header, (), head),
        json::array_len(body@) is Some,
        0 <= i < json::array_len(body@).unwrap(),
        shows_text(json::string_members(body@, "agent_id"@), i, agent_id@),
        shows_text(json::string_members(body@, "hostname"@), i, hostname@),
        shows_text(json::string_members(body@, "os"@), i, os@),
        shows_number(json::number_members(body@, "last_seen_ns"@), i, seen),
        call_ensures(cli::agent_line, (agent_id, hostname, os, seen), line),
    ensures
        lines@.len() == 1 + json::array_len(body@).unwrap(),
        lines@[0]@ == head@,
        lines@[i + 1]@ == line@,
{
    let views = cli::line_views(lines@);
    assert(views.len() == 1 + json::array_len(body@).unwrap());
    assert(views[0] == lines@[0]@);
    assert(cli::shown(json::string_members(body@, "agent_id"@).unwrap()[i]) =~= agent_id@);
    assert(cli::shown(json::string_members(body@, "hostname"@).unwrap()[i]) =~= hostname@);
    assert(cli::shown(json::string_members(body@, "os"@).unwrap()[i]) =~= os@);
    assert(views[i + 1] == lines@[i + 1]@);
}

/// A table of alerts has a line for its header and one for each item, in order, of the
/// item's own members.
pub proof fn law_alert_table(
    body: &[u8],
    lines: Vec<String>,
    head: String,
    i: int,
    severity: &str,
    title: &str,
    agent_id: &str,
    acknowledged: bool,
    ts_ns: u64,
    line: String,
)
    requires
        call_ensures(cli::alert_table, (body,), lines),
        call_ensures(cli::alert_header, (), head),
        json::array_len(body@) is Some,
        0 <= i < json::array_len(body@).unwrap(),
        shows_text(json::string_members(body@, "severity"@), i, severity@),
        shows_text(json::string_members(body@, "title"@), i, title@),
        shows_text(json::string_members(body@, "agent_id"@), i, agent_id@),
        shows_flag(json::bool_members(body@, "acknowledged"@), i, acknowledged),
        shows_number(json::number_members(body@, "ts_ns"@), i, ts_ns),
        call_ensures(cli::alert_line, (severity, title, agent_id, acknowledged, ts_ns), line),
    ensures
        lines@.len() == 1 + json::array_len(body@).unwrap(),
        lines@[0]@ == head@,
        lines@[i + 1]@ == line@,
{
    let views = cli::line_views(lines@);
    assert(views.len() == 1 + json::array_len(body@).unwrap());
    assert(views[0] == lines@[0]@);
    assert(cli::shown(json::string_members(body@, "severity"@).unwrap()[i]) =~= severity@);
    assert(cli::shown(json::string_members(body@, "title"@).unwrap()[i]) =~= title@);
    assert(cli::shown(json::string_members(body@, "agent_id"@).unwrap()[i]) =~= agent_id@);
    assert(views[i + 1] == lines@[i + 1]@);
}

/// A table of scores has a line for its header and one for each item, in order, of the
/// item's own members.
pub proof fn law_score_table(
    body: &[u8],
    lines: Vec<String>,
    head: String,
    i: int,
    agent_id: &str,
    subject: &str,
    score: &str,
    ts_ns: u64,
    line: String,
)
    requires
        call_ensures(cli::score_table, (body,), lines),
        call_ensures(cli::score_header, (), head),
        json::array_len(body@) is Some,
        0 <= i < json::array_len(body@).unwrap(),
        shows_text(json::string_members(body@, "agent_id"@), i, agent_id@),
        shows_text(json::string_members(body@, "subject"@), i, subject@),
        shows_text(json::number_texts(body@, "score"@), i, score@),
        shows_number(json::number_members(body@, "ts_ns"@), i, ts_ns),
        call_ensures(cli::score_line, (agent_id, subject, score, ts_ns), line),
    ensures
        lines@.len() == 1 + json::array_len(body@).unwrap(),
        lines@[0]@ == head@,
        lines@[i + 1]@ == line@,
{
    let views = cli::line_views(lines@);
    assert(views.len() == 1 + json::array_len(body@).unwrap());
    assert(views[0] == lines@[0]@);
    assert(cli::shown(json::string_members(body@, "agent_id"@).unwrap()[i]) =~= agent_id@);
    assert(cli::shown(json::string_members(body@, "subject"@).unwrap()[i]) =~= subject@);
    assert(cli::shown(json::number_texts(body@, "score"@).unwrap()[i]) =~= score@);
    assert(views[i + 1] == lines@[i + 1]@);
}

/// A table of detections has a line for its header, and one for each item that has the
/// verdict asked for, if one is, of the item's own members.
pub proof fn law_detection_table(
    body: &[u8],
    wanted: Option<&str>,
    lines: Vec<String>,
    head: String,
    i: int,
    agent_id: &str,
    subject: &str,
    verdict: &str,
    confidence: &str,
    ts_ns: u64,
    line: String,
)
    requires
        call_ensures(cli::verdict_table, (body, wanted), lines),
        call_ensures(cli::detection_header, (), head),
        json::array_len(body@) is Some,
        0 <= i < json::array_len(body@).unwrap(),
        shows_text(json::string_members(body@, "agent_id"@), i, agent_id@),
        shows_text(json::string_members(body@, "subject"@), i, subject@),
        shows_text(json::string_members(body@, "verdict"@), i, verdict@),
        shows_text(json::number_texts(body@, "confidence"@), i, confidence@),
        shows_number(json::number_members(body@, "ts_ns"@), i, ts_ns),
        call_ensures(cli::detection_line, (agent_id, subject, verdict, confidence, ts_ns), line),
    ensures
        lines@.len() >= 1,
        lines@[0]@ == head@,
        wanted is None ==> lines@.len() == 1 + json::array_len(body@).unwrap() && lines@[i + 1]@
            == line@,
        wanted matches Some(w) ==> verdict@ == w@ ==> exists|k: int|
            1 <= k < lines@.len() && (#[trigger] lines@[k])@ == line@,
        wanted matches Some(w) ==> forall|k: int|
            1 <= k < lines@.len() ==> is_row_with(body@, w@, (#[trigger] lines@[k])@),
{
    let n = json::array_len(body@).unwrap();
    let rows = Seq::new(n, |j: int| cli::detection_row(body@, j));
    let flags = Seq::new(
        n,
        |j: int| cli::is_wanted(cli::string_at(body@, "verdict"@, j), cli::opt_str(wanted)),
    );
    let views = cli::line_views(lines@);
    assert(views == seq![cli::detection_head()] + cli::chosen(rows, flags));
    assert(views.len() == lines@.len());
    assert(views[0] == lines@[0]@);
    assert(cli::shown(json::string_members(body@, "agent_id"@).unwrap()[i]) =~= agent_id@);
    assert(cli::shown(json::string_members(body@, "subject"@).unwrap()[i]) =~= subject@);
    assert(cli::shown(json::string_members(body@, "verdict"@).unwrap()[i]) =~= verdict@);
    assert(cli::shown(json::number_texts(body@, "confidence"@).unwrap()[i]) =~= confidence@);
    assert(rows[i] == line@);
    lemma_chosen(rows, flags);
    if wanted is None {
        assert(forall|j: int| 0 <= j < n ==> #[trigger] flags[j]);
        assert(views[i + 1] == lines@[i + 1]@);
        assert(cli::chosen(rows, flags) == rows);
    }
    if let Some(w) = wanted {
        if verdict@ == w@ {
            assert(flags[i]);
            assert(cli::chosen(rows, flags).contains(rows[i]));
            let k = choose|k: int|
                0 <= k < cli::chosen(rows, flags).len() && cli::chosen(rows, flags)[k] == rows[i];
            assert(views[k + 1] == lines@[k + 1]@);
        }
        assert forall|k: int| 1 <= k < lines@.len() implies is_row_with(
            body@,
            w@,
            (#[trigger] lines@[k])@,
        ) by {
            assert(views[k] == lines@[k]@);
            assert(views[k] == cli::chosen(rows, flags)[k - 1]);
            assert(taken(rows, flags, cli::chosen(rows, flags)[k - 1]));
            let j = choose|j: int|
                0 <= j < rows.len() && #[trigger] flags[j] && rows[j] == cli::chosen(
                    rows,
                    flags,
                )[k - 1];
            assert(cli::detection_row(body@, j) == lines@[k]@);
        }
    }
}

/// The line is that of an item with this verdict.
pub open spec fn is_row_with(body: Seq<u8>, verdict: Seq<char>, line: Seq<char>) -> bool {
    exists|j: int|
        0 <= j < json::array_len(body).unwrap() && cli::string_at(body, "verdict"@, j) == verdict
            && #[trigger] cli::detection_row(body, j) == line
}

/// The row is one whose flag is set.
pub open spec fn taken(rows: Seq<Seq<char>>, flags: Seq<bool>, row: Seq<char>) -> bool {
    exists|j: int| 0 <= j < rows.len() && #[trigger] flags[j] && rows[j] == row
}

proof fn lemma_chosen(rows: Seq<Seq<char>>, flags: Seq<bool>)
    requires
        flags.len() == rows.len(),
    ensures
        (forall|j: int| 0 <= j < rows.len() ==> #[trigger] flags[j]) ==> cli::chosen(rows, flags)
            == rows,
        forall|j: int|
            0 <= j < rows.len() && #[trigger] flags[j] ==> cli::chosen(rows, flags).contains(
                rows[j],
            ),
        forall|k: int|
            0 <= k < cli::chosen(rows, flags).len() ==> taken(
                rows,
                flags,
                #[trigger] cli::chosen(rows, flags)[k],
            ),
    decreases rows.len(),
{
    if rows.len() > 0 {
        let r = rows.drop_last();
        let f = flags.drop_last();
        lemma_chosen(r, f);
        let before = cli::chosen(r, f);
        let all = cli::chosen(rows, flags);
        if forall|j: int| 0 <= j < rows.len() ==> #[trigger] flags[j] {
            assert forall|j: int| 0 <= j < r.len() implies #[trigger] f[j] by {
                assert(flags[j] == f[j]);
            }
            assert(flags[rows.len() - 1]);
            assert(all =~= rows);
        }
        assert forall|j: int| 0 <= j < rows.len() && #[trigger] flags[j] implies all.contains(
            rows[j],
        ) by {
            if j < r.len() {
                assert(f[j] == flags[j]);
                assert(before.contains(r[j]));
                let k = choose|k: int| 0 <= k < before.len() && before[k] == r[j];
                assert(all[k] == rows[j]);
            } else {
                assert(all[all.len() - 1] == rows[j]);
            }
        }
        assert forall|k: int| 0 <= k < all.len() implies taken(
            rows,
            flags,
            #[trigger] all[k],
        ) by {
            if k < before.len() {
                assert(all[k] == before[k]);
                assert(taken(r, f, before[k]));
                let j = choose|j: int| 0 <= j < r.len() && #[trigger] f[j] && r[j] == before[k];
                assert(flags[j] && rows[j] == all[k]);
            } else {
                assert(flags[rows.len() - 1] && rows[rows.len() - 1] == all[k]);
            }
        }
    } else {
        assert(cli::chosen(rows, flags) =~= rows);
    }
}

/// A member of an item is shown as it is, and as nothing where it is missing.
pub open spec fn shows_text(
    members: Option<Seq<Option<Seq<char>>>>,
    i: int,
    text: Seq<char>,
) -> bool {
    members matches Some(list) && (list[i] is Some ==> text == list[i].unwrap()) && (
    list[i] is None ==> text.len() == 0)
}

/// A number of an item is shown as it is, and as zero where it is missing.
pub open spec fn shows_number(members: Option<Seq<Option<u64>>>, i: int, n: u64) -> bool {
    members matches Some(list) && (list[i] is Some ==> n == list[i].unwrap()) && (list[i] is None
        ==> n == 0)
}

/// A flag of an item is shown as it is, and as `false` where it is missing.
pub open spec fn shows_flag(members: Option<Seq<Option<bool>>>, i: int, b: bool) -> bool {
    members matches Some(list) && (list[i] is Some ==> b == list[i].unwrap()) && (list[i] is None
        ==> !b)
}

/// What is printed of a new token names it and the fingerprint to pin.
pub proof fn law_created_text(
    token: &str,
    fingerprint: &str,
    out: String,
    body: &[u8],
    text: String,
)
    requires
        call_ensures(cli::created_lines, (token, fingerprint), out),
        call_ensures(cli::created_text, (body,), text),
    ensures
        out@ == "token:       "@ + token@ + "\nfingerprint: "@ + fingerprint@
            + "\n\nPin the fingerprint on the agent, then enroll with the token above."@,
        json::string_member(body@, "token"@) == Some(token@) && json::string_member(
            body@,
            "fingerprint"@,
        ) == Some(fingerprint@) ==> text@ == out@,
{
}

/// What is printed of a status: fingerprint, protocol version and the number of agents,
/// which is that of the listing if that is a success and an array.
pub proof fn law_status_text(
    fingerprint: &str,
    proto_version: u64,
    counted: String,
    n: usize,
    uncounted: String,
    listing: Option<&Response>,
    count: Option<usize>,
    info: &[u8],
    text: String,
)
    requires
        call_ensures(cli::status_lines, (fingerprint, proto_version, Some(n)), counted),
        call_ensures(cli::status_lines, (fingerprint, proto_version, None::<usize>), uncounted),
        call_ensures(cli::count_agents, (listing,), count),
        call_ensures(cli::status_text, (info, listing), text),
    ensures
        counted@ == "fingerprint:    "@ + fingerprint@ + "\nproto version:  "@ + text::decimal(
            proto_version as nat,
        ) + "\nagents:         "@ + text::decimal(n as nat),
        uncounted@ == "fingerprint:    "@ + fingerprint@ + "\nproto version:  "@ + text::decimal(
            proto_version as nat,
        ) + "\nagents:         "@ + "(unavailable)"@,
        listing is None ==> count is None,
        listing matches Some(r) ==> (r.status != 200 ==> count is None) && (r.status == 200 ==> (
        count is Some <==> json::array_len(r.body@) is Some) && (count is Some ==> json::array_len(
            r.body@,
        ) == Some(count.unwrap() as nat))),
        json::string_member(info@, "fingerprint"@) == Some(fingerprint@) && json::number_member(
            info@,
            "proto_version"@,
        ) == Some(proto_version) ==> (count is None ==> text@ == uncounted@) && (count == Some(n)
            ==> text@ == counted@),
{
}

/// What `--json` prints of a status: the info, over several lines, with the number of
/// agents in it where that is known.
pub proof fn law_status_json(
    info: &[u8],
    listing: Option<&Response>,
    count: Option<usize>,
    out: Option<String>,
    body: &[u8],
    pretty: Option<String>,
)
    requires
        call_ensures(cli::count_agents, (listing,), count),
        call_ensures(cli::status_json, (info, listing), out),
        call_ensures(cli::pretty_body, (body,), pretty),
    ensures
        pretty is Some <==> json::is_json(body@),
        pretty matches Some(t) ==> json::pretty_text(body@) == Some(t@),
        out is Some <==> json::is_json(info@),
        count is None && out is Some ==> json::pretty_text(info@) == Some(out.unwrap()@),
        count is Some && out is Some ==> {
            let with = json::pretty_with_number(
                info@,
                "agent_count"@,
                count.unwrap() as u64,
            );
            &&& with is Some ==> with == Some(out.unwrap()@)
            &&& with is None ==> json::pretty_text(info@) == Some(out.unwrap()@)
        },
{
}

/// The body of a request for a token is an object with its label.
pub proof fn law_create_body(label: &str, out: Option<String>)
    requires
        call_ensures(cli::create_body, (label,), out),
    ensures
        out matches Some(body) ==> json::object_with("{}"@, "label"@, label@) == Some(body@),
        out is None ==> json::object_with("{}"@, "label"@, label@) is None,
{
}

/// A revocation is what the status says: 204 revoked it, 409 refused to, and anything
/// else is a failure with the server's error line.
pub proof fn law_revocation_is_by_status(
    response: &Response,
    out: Revocation,
    detail: String,
    status: u16,
    outcome: &Revocation,
    json: String,
)
    requires
        call_ensures(Response::revocation, (response,), out),
        call_ensures(Response::error_detail, (response,), detail),
        call_ensures(cli::revocation_json, (status, outcome), json),
    ensures
        out is Revoked <==> response.status == 204,
        out is Refused <==> response.status == 409,
        out matches Revocation::Failed(line) ==> line@ == detail@,
        *outcome is Revoked ==> json@ == "{\"status\":"@ + text::decimal(status as nat)
            + ",\"revoked\":"@ + "true}"@,
        !(*outcome is Revoked) ==> json@ == "{\"status\":"@ + text::decimal(status as nat)
            + ",\"revoked\":"@ + "false}"@,
{
}

/// An error line is the server's message, or the status and what the body begins with.
pub proof fn law_error_line(
    status: u16,
    message: String,
    text: &str,
    said: String,
    unsaid: String,
)
    requires
        call_ensures(cli::describe_error, (status, Some(message), text), said),
        call_ensures(cli::describe_error, (status, None::<String>, text), unsaid),
    ensures
        said@ == "server error ("@ + text::decimal(status as nat) + "): "@ + message@,
        text::trimmed(text@).len() == 0 ==> unsaid@ == "server returned HTTP "@ + text::decimal(
            status as nat,
        ),
        text::trimmed(text@).len() > 0 ==> unsaid@ == "server returned HTTP "@ + text::decimal(
            status as nat,
        ) + ": "@ + cli::truncated(text::trimmed(text@), 200),
{
}

/// A response is taken if its status is a success and its body JSON; else it is the error
/// line or that the body is none.
pub proof fn law_reply_is_judged_by_status_and_body(
    response: &Response,
    res: Result<(), ReplyError>,
    detail: String,
)
    requires
        call_ensures(Response::json_ok, (response,), res),
        call_ensures(Response::error_detail, (response,), detail),
    ensures
        res is Ok <==> 200 <= response.status < 300 && json::is_json(response.body@),
        !(200 <= response.status < 300) ==> (res matches Err(ReplyError::Status(line)) && line@
            == detail@),
        200 <= response.status < 300 && !json::is_json(response.body@) ==> (
        res matches Err(ReplyError::InvalidJson)),
        json::string_member(response.body@, "error"@) matches Some(m) ==> detail@
            == "server error ("@ + text::decimal(response.status as nat) + "): "@ + m,
{
}

/// What is said of a response that is not taken.
pub proof fn law_reply_messages(error: &ReplyError, said: String)
    requires
        call_ensures(ReplyError::message, (error,), said),
    ensures
        *error matches ReplyError::Status(line) ==> said@ == line@,
        *error is InvalidJson ==> said@ == "server returned invalid JSON"@,
{
}

/// The lines of a table of tokens are its header and the line of each, in order.
pub proof fn law_token_columns(
    tokens: &Vec<String>,
    used: &Vec<bool>,
    labels: &Vec<String>,
    created: &Vec<u64>,
    lines: Vec<String>,
    head: String,
    i: int,
    token: &str,
    label: &str,
    line: String,
)
    requires
        used@.len() == tokens@.len(),
        labels@.len() == tokens@.len(),
        created@.len() == tokens@.len(),
        call_ensures(cli::token_lines, (tokens, used, labels, created), lines),
        call_ensures(cli::token_header, (), head),
        0 <= i < tokens@.len(),
        token@ == tokens@[i]@,
        label@ == labels@[i]@,
        call_ensures(cli::token_line, (token, used@[i], label, created@[i]), line),
    ensures
        lines@.len() == 1 + tokens@.len(),
        lines@[0]@ == head@,
        lines@[i + 1]@ == line@,
{
    let views = cli::line_views(lines@);
    assert(views.len() == 1 + tokens@.len());
    assert(views[0] == lines@[0]@);
    assert(views[i + 1] == lines@[i + 1]@);
}

/// The lines of a table of agents are its header and the line of each, in order.
pub proof fn law_agent_columns(
    agent_ids: &Vec<String>,
    hostnames: &Vec<String>,
    oses: &Vec<String>,
    seen: &Vec<u64>,
    lines: Vec<String>,
    head: String,
    i: int,
    agent_id: &str,
    hostname: &str,
    os: &str,
    line: String,
)
    requires
        hostnames@.len() == agent_ids@.len(),
        oses@.len() == agent_ids@.len(),
        seen@.len() == agent_ids@.len(),
        call_ensures(cli::agent_lines, (agent_ids, hostnames, oses, seen), lines),
        call_ensures(cli::agent_header, (), head),
        0 <= i < agent_ids@.len(),
        agent_id@ == agent_ids@[i]@,
        hostname@ == hostnames@[i]@,
        os@ == oses@[i]@,
        call_ensures(cli::agent_line, (agent_id, hostname, os, seen@[i]), line),
    ensures
        lines@.len() == 1 + agent_ids@.len(),
        lines@[0]@ == head@,
        lines@[i + 1]@ == line@,
{
    let views = cli::line_views(lines@);
    assert(views.len() == 1 + agent_ids@.len());
    assert(views[0] == lines@[0]@);
    assert(views[i + 1] == lines@[i + 1]@);
}

/// The lines of a table of alerts are its header and the line of each, in order.
pub proof fn law_alert_columns(
    severities: &Vec<String>,
    titles: &Vec<String>,
    agent_ids: &Vec<String>,
    acknowledged: &Vec<bool>,
    times: &Vec<u64>,
    lines: Vec<String>,
    head: String,
    i: int,
    severity: &str,
    title: &str,
    agent_id: &str,
    line: String,
)
    requires
        titles@.len() == severities@.len(),
        agent_ids@.len() == severities@.len(),
        acknowledged@.len() == severities@.len(),
        times@.len() == severities@.len(),
        call_ensures(
            cli::alert_lines,
            (severities, titles, agent_ids, acknowledged, times),
            lines,
        ),
        call_ensures(cli::alert_header, (), head),
        0 <= i < severities@.len(),
        severity@ == severities@[i]@,
        title@ == titles@[i]@,
        agent_id@ == agent_ids@[i]@,
        call_ensures(
            cli::alert_line,
            (severity, title, agent_id, acknowledged@[i], times@[i]),
            line,
        ),
    ensures
        lines@.len() == 1 + severities@.len(),
        lines@[0]@ == head@,
        lines@[i + 1]@ == line@,
{
    let views = cli::line_views(lines@);
    assert(views.len() == 1 + severities@.len());
    assert(views[0] == lines@[0]@);
    assert(views[i + 1] == lines@[i + 1]@);
}

/// The lines of a table of scores are its header and the line of each, in order.
pub proof fn law_score_columns(
    agent_ids: &Vec<String>,
    subjects: &Vec<String>,
    scores: &Vec<String>,
    times: &Vec<u64>,
    lines: Vec<String>,
    head: String,
    i: int,
    agent_id: &str,
    subject: &str,
    score: &str,
    line: String,
)
    requires
        subjects@.len() == agent_ids@.len(),
        scores@.len() == agent_ids@.len(),
        times@.len() == agent_ids@.len(),
        call_ensures(cli::score_lines, (agent_ids, subjects, scores, times), lines),
        call_ensures(cli::score_header, (), head),
        0 <= i < agent_ids@.len(),
        agent_id@ == agent_ids@[i]@,
        subject@ == subjects@[i]@,
        score@ == scores@[i]@,
        call_ensures(cli::score_line, (agent_id, subject, score, times@[i]), line),
    ensures
        lines@.len() == 1 + agent_ids@.len(),
        lines@[0]@ == head@,
        lines@[i + 1]@ == line@,
{
    let views = cli::line_views(lines@);
    assert(views.len() == 1 + agent_ids@.len());
    assert(views[0] == lines@[0]@);
    assert(views[i + 1] == lines@[i + 1]@);
}

} // verus!
