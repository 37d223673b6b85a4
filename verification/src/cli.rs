//! The operator's command line: request paths, tables and error lines.
use crate::http::Response;
use crate::plugin::{PluginKind, PluginMetadata, PLUGIN_API_VERSION};
use crate::proto::PROTO_VERSION;
use crate::{json, plugin, text};
use vstd::prelude::*;
use vstd::utf8;

verus! {

/// Spaces.
pub open spec fn spaces(n: nat) -> Seq<char> {
    Seq::new(n, |i: int| ' ')
}

/// Left-aligned in a column of `width` characters; longer text overflows.
pub open spec fn padded(s: Seq<char>, width: nat) -> Seq<char> {
    if s.len() < width {
        s + spaces((width - s.len()) as nat)
    } else {
        s
    }
}

/// Appends a left-aligned column.
fn push_padded(out: &mut String, s: &str, width: usize)
    ensures
        final(out)@ == old(out)@ + padded(s@, width as nat),
{
    let have: usize = s.unicode_len();
    text::push_str(out, s);
    let ghost base = out@;
    let mut n: usize = have;
    while n < width
        invariant
            have == s@.len(),
            have <= n,
            n <= width || n == have,
            base == old(out)@ + s@,
            out@ == base + spaces((n - have) as nat),
        decreases width - n,
    {
        out.push(' ');
        assert(out@ =~= base + spaces((n + 1 - have) as nat));
        n = n + 1;
    }
    assert(out@ =~= old(out)@ + padded(s@, width as nat));
}

/// A table line: every cell but the last padded to its column and followed by the
/// gap.
pub open spec fn table_line(cells: Seq<Seq<char>>, widths: Seq<usize>, gap: Seq<char>) -> Seq<char>
    decreases cells.len(),
{
    if cells.len() == 0 {
        Seq::empty()
    } else if cells.len() == 1 {
        cells[0]
    } else {
        padded(cells[0], widths[0] as nat) + gap + table_line(cells.skip(1), widths.skip(1), gap)
    }
}

/// Lays out one table line. There is a width for every cell but the last.
pub fn layout(cells: &[&str], widths: &[usize], gap: &str) -> (line: String)
    requires
        cells@.len() <= widths@.len() + 1,
    ensures
        line@ == table_line(plugin::slices(cells@), widths@, gap@),
{
    let ghost all = plugin::slices(cells@);
    let mut line: String = String::new();
    let total: usize = cells.len();
    let mut i: usize = 0;
    assert(all.skip(0) =~= all);
    assert(widths@.skip(0) =~= widths@);
    while i < total
        invariant
            i <= total == cells@.len(),
            total <= widths@.len() + 1,
            all == plugin::slices(cells@),
            table_line(all, widths@, gap@) == line@ + table_line(
                all.skip(i as int),
                widths@.skip(i as int),
                gap@,
            ),
        decreases total - i,
    {
        let ghost before = line@;
        let ghost rest = all.skip(i as int);
        assert(rest[0] == cells@[i as int]@);
        assert(rest.skip(1) =~= all.skip(i + 1));
        if i + 1 == total {
            text::push_str(&mut line, cells[i]);
            assert(table_line(all.skip(i + 1), widths@.skip(i + 1), gap@) =~= Seq::empty());
            assert(line@ =~= before + rest[0]);
        } else {
            assert(widths@.skip(i as int)[0] == widths@[i as int]);
            assert(widths@.skip(i as int).skip(1) =~= widths@.skip(i + 1));
            push_padded(&mut line, cells[i], widths[i]);
            text::push_str(&mut line, gap);
            assert(before + (padded(rest[0], widths@[i as int] as nat) + gap@ + table_line(
                all.skip(i + 1),
                widths@.skip(i + 1),
                gap@,
            )) =~= line@ + table_line(all.skip(i + 1), widths@.skip(i + 1), gap@));
        }
        i = i + 1;
    }
    assert(line@ + Seq::<char>::empty() =~= line@);
    line
}

/// A string cut to a number of columns: where it is longer, the last column holds
/// an ellipsis. No columns hold nothing.
pub open spec fn truncated(s: Seq<char>, max: nat) -> Seq<char> {
    if s.len() <= max {
        s
    } else if max == 0 {
        Seq::empty()
    } else {
        s.take(max - 1).push('\u{2026}')
    }
}

/// Truncate a string to `max` columns, with an ellipsis in the last when it
/// overflows, so that tables stay aligned whatever the length of a field.
pub fn truncate(s: &str, max: usize) -> (out: String)
    ensures
        out@ == truncated(s@, max as nat),
{
    let chars: Vec<char> = text::chars_of(s);
    if chars.len() <= max {
        return s.to_owned();
    }
    if max == 0 {
        return String::new();
    }
    let keep: usize = max - 1;
    let mut out: String = text::string_of(&chars.as_slice()[0..keep]);
    assert(chars@.subrange(0, keep as int) =~= s@.take(keep as int));
    out.push('\u{2026}');
    out
}

/// A truncated string fits its columns, and is cut only where it had to be.
pub proof fn law_truncated_text_fits(s: Seq<char>, max: nat)
    ensures
        truncated(s, max).len() <= max,
        s.len() <= max ==> truncated(s, max) == s,
        s.len() > max ==> truncated(s, max).len() == max,
{
}

/// The characters that stand for themselves in a query.
pub open spec fn is_unreserved(b: u8) -> bool {
    ||| 65 <= b <= 90
    ||| 97 <= b <= 122
    ||| 48 <= b <= 57
    ||| b == 45
    ||| b == 95
    ||| b == 46
    ||| b == 126
}

/// The upper-case hexadecimal digit of a value below sixteen.
pub open spec fn upper_hex(n: u8) -> char {
    if n < 10 {
        (48 + n) as char
    } else {
        (55 + n) as char
    }
}

/// One byte of a query component.
pub open spec fn escaped_byte(b: u8) -> Seq<char> {
    if is_unreserved(b) {
        seq![b as char]
    } else {
        seq!['%', upper_hex(b / 16), upper_hex(b % 16)]
    }
}

/// A query component, byte by byte.
pub open spec fn escaped(bytes: Seq<u8>) -> Seq<char>
    decreases bytes.len(),
{
    if bytes.len() == 0 {
        Seq::empty()
    } else {
        escaped(bytes.drop_last()) + escaped_byte(bytes.last())
    }
}

fn upper_hex_char(n: u8) -> (c: char)
    requires
        n < 16,
    ensures
        c == upper_hex(n),
{
    if n < 10 {
        (48 + n) as char
    } else {
        (55 + n) as char
    }
}

/// Percent-encoding for query components: keep the unreserved characters, escape
/// every other byte.
pub fn percent_encode(s: &str) -> (out: String)
    ensures
        out@ == escaped(utf8::encode_utf8(s@)),
{
    let raw: &[u8] = s.as_bytes();
    let mut out: String = String::new();
    let mut i: usize = 0;
    assert(raw@.take(0) =~= Seq::empty());
    while i < raw.len()
        invariant
            i <= raw@.len(),
            out@ == escaped(raw@.take(i as int)),
        decreases raw@.len() - i,
    {
        let b: u8 = raw[i];
        let ghost before = out@;
        assert(raw@.take(i + 1).drop_last() =~= raw@.take(i as int));
        assert(raw@.take(i + 1).last() == b);
        if (65 <= b && b <= 90) || (97 <= b && b <= 122) || (48 <= b && b <= 57) || b == 45 || b
            == 95 || b == 46 || b == 126 {
            out.push(b as char);
        } else {
            out.push('%');
            out.push(upper_hex_char(b / 16));
            out.push(upper_hex_char(b % 16));
        }
        assert(out@ =~= before + escaped_byte(b));
        i = i + 1;
    }
    assert(raw@.take(raw@.len() as int) =~= raw@);
    out
}

/// Whether a character may stand in an encoded component.
pub open spec fn is_query_safe(c: char) -> bool {
    c == '%' || ((c as u32) < 128 && is_unreserved(c as u8))
}

/// An encoded component holds unreserved characters and percent signs only, so it
/// cannot break the query that it stands in.
pub proof fn law_encoded_component_is_safe(bytes: Seq<u8>)
    ensures
        forall|i: int| 0 <= i < escaped(bytes).len() ==> is_query_safe(#[trigger] escaped(bytes)[i]),
    decreases bytes.len(),
{
    if bytes.len() > 0 {
        law_encoded_component_is_safe(bytes.drop_last());
        let b = bytes.last();
        let tail = escaped_byte(b);
        assert forall|i: int| 0 <= i < tail.len() implies is_query_safe(#[trigger] tail[i]) by {
            if !is_unreserved(b) {
                lemma_hex_is_safe(b / 16);
                lemma_hex_is_safe(b % 16);
            }
        }
        let head = escaped(bytes.drop_last());
        assert forall|i: int| 0 <= i < escaped(bytes).len() implies is_query_safe(
            #[trigger] escaped(bytes)[i],
        ) by {
            if i < head.len() {
                assert(escaped(bytes)[i] == head[i]);
            } else {
                assert(escaped(bytes)[i] == tail[i - head.len()]);
            }
        }
    }
}

proof fn lemma_hex_is_safe(n: u8)
    requires
        n < 16,
    ensures
        is_query_safe(upper_hex(n)),
{
}

/// The pairs of a query, as values.
pub open spec fn pair_views(pairs: Seq<(String, String)>) -> Seq<(Seq<char>, Seq<char>)> {
    pairs.map_values(|p: (String, String)| (p.0@, p.1@))
}

/// `key=value`, both encoded.
pub open spec fn query_pair(p: (Seq<char>, Seq<char>)) -> Seq<char> {
    escaped(utf8::encode_utf8(p.0)) + seq!['='] + escaped(utf8::encode_utf8(p.1))
}

/// The pairs of a query, joined by `&`.
pub open spec fn query_string(pairs: Seq<(Seq<char>, Seq<char>)>) -> Seq<char>
    decreases pairs.len(),
{
    if pairs.len() == 0 {
        Seq::empty()
    } else if pairs.len() == 1 {
        query_pair(pairs[0])
    } else {
        query_string(pairs.drop_last()) + seq!['&'] + query_pair(pairs.last())
    }
}

/// A path with its query, if there is one.
pub open spec fn with_query_chars(
    path: Seq<char>,
    pairs: Seq<(Seq<char>, Seq<char>)>,
) -> Seq<char> {
    if pairs.len() == 0 {
        path
    } else {
        path + seq!['?'] + query_string(pairs)
    }
}

/// Append a `?k=v&...` query string to `path`, percent-encoding keys and values.
/// Without pairs the path is unchanged.
pub fn with_query(path: &str, pairs: &Vec<(String, String)>) -> (out: String)
    ensures
        out@ == with_query_chars(path@, pair_views(pairs@)),
{
    let mut out: String = path.to_owned();
    if pairs.len() == 0 {
        return out;
    }
    out.push('?');
    let ghost all = pair_views(pairs@);
    let ghost start = out@;
    let mut i: usize = 0;
    assert(all.take(0) =~= Seq::empty());
    while i < pairs.len()
        invariant
            i <= pairs@.len(),
            all == pair_views(pairs@),
            out@ == start + query_string(all.take(i as int)),
        decreases pairs@.len() - i,
    {
        let ghost before = out@;
        assert(all.take(i + 1).drop_last() =~= all.take(i as int));
        assert(all.take(i + 1).last() == all[i as int]);
        if i > 0 {
            out.push('&');
        } else {
            assert(all.take(1)[0] == all[0]);
        }
        text::push_str(&mut out, percent_encode(pairs[i].0.as_str()).as_str());
        out.push('=');
        text::push_str(&mut out, percent_encode(pairs[i].1.as_str()).as_str());
        assert(out@ =~= start + query_string(all.take(i + 1)));
        i = i + 1;
    }
    assert(all.take(pairs@.len() as int) =~= all);
    assert(out@ =~= path@ + seq!['?'] + query_string(all));
    out
}

/// The query of an alert listing, as values.
pub open spec fn alert_pairs(
    limit: Option<usize>,
    severity: Option<Seq<char>>,
    unacknowledged: bool,
) -> Seq<(Seq<char>, Seq<char>)> {
    let first = match limit {
        Some(n) => seq![("limit"@, text::decimal(n as nat))],
        None => Seq::empty(),
    };
    let second = match severity {
        Some(s) => seq![("severity"@, s)],
        None => Seq::empty(),
    };
    let third = if unacknowledged {
        seq![("acknowledged"@, "false"@)]
    } else {
        Seq::empty()
    };
    first + second + third
}

/// The request path of an alert listing with its filters.
pub fn alerts_path(limit: Option<usize>, severity: Option<&str>, unacknowledged: bool) -> (path:
    String)
    ensures
        path@ == with_query_chars(
            "/api/v1/alerts"@,
            alert_pairs(
                limit,
                match severity {
                    Some(s) => Some(s@),
                    None => None,
                },
                unacknowledged,
            ),
        ),
{
    let mut pairs: Vec<(String, String)> = Vec::new();
    if let Some(n) = limit {
        pairs.push(("limit".to_owned(), text::decimal_string(n as u64)));
    }
    if let Some(s) = severity {
        pairs.push(("severity".to_owned(), s.to_owned()));
    }
    if unacknowledged {
        pairs.push(("acknowledged".to_owned(), "false".to_owned()));
    }
    assert(pair_views(pairs@) =~= alert_pairs(
        limit,
        match severity {
            Some(s) => Some(s@),
            None => None,
        },
        unacknowledged,
    ));
    with_query("/api/v1/alerts", &pairs)
}

/// A query pair that is there if its value is.
pub open spec fn opt_pair(name: Seq<char>, value: Option<Seq<char>>) -> Seq<
    (Seq<char>, Seq<char>),
> {
    match value {
        Some(v) => seq![(name, v)],
        None => Seq::empty(),
    }
}

pub open spec fn opt_str(s: Option<&str>) -> Option<Seq<char>> {
    match s {
        Some(s) => Some(s@),
        None => None,
    }
}

/// The request path of a score listing: the route of one agent where one is
/// named, else the whole table with its filter. The filter is a decimal number.
pub fn scores_path(agent: Option<&str>, min_score: Option<&str>) -> (path: String)
    ensures
        path@ == (match agent {
            Some(a) => "/api/v1/scores/"@ + a@,
            None => with_query_chars(
                "/api/v1/scores"@,
                opt_pair("min_score"@, opt_str(min_score)),
            ),
        }),
{
    match agent {
        Some(a) => {
            let mut path: String = "/api/v1/scores/".to_owned();
            text::push_str(&mut path, a);
            path
        },
        None => {
            let mut pairs: Vec<(String, String)> = Vec::new();
            if let Some(v) = min_score {
                pairs.push(("min_score".to_owned(), v.to_owned()));
            }
            assert(pair_views(pairs@) =~= opt_pair("min_score"@, opt_str(min_score)));
            with_query("/api/v1/scores", &pairs)
        },
    }
}

/// The request path of a detection listing: the route of one agent where one is
/// named, else the whole table with its filters.
pub fn detections_path(
    agent: Option<&str>,
    verdict: Option<&str>,
    min_confidence: Option<&str>,
) -> (path: String)
    ensures
        path@ == (match agent {
            Some(a) => "/api/v1/detections/"@ + a@,
            None => with_query_chars(
                "/api/v1/detections"@,
                opt_pair("verdict"@, opt_str(verdict)) + opt_pair(
                    "min_confidence"@,
                    opt_str(min_confidence),
                ),
            ),
        }),
{
    match agent {
        Some(a) => {
            let mut path: String = "/api/v1/detections/".to_owned();
            text::push_str(&mut path, a);
            path
        },
        None => {
            let mut pairs: Vec<(String, String)> = Vec::new();
            if let Some(v) = verdict {
                pairs.push(("verdict".to_owned(), v.to_owned()));
            }
            if let Some(v) = min_confidence {
                pairs.push(("min_confidence".to_owned(), v.to_owned()));
            }
            assert(pair_views(pairs@) =~= opt_pair("verdict"@, opt_str(verdict)) + opt_pair(
                "min_confidence"@,
                opt_str(min_confidence),
            ));
            with_query("/api/v1/detections", &pairs)
        },
    }
}

/// The request path that revokes a token.
pub fn token_path(token: &str) -> (path: String)
    ensures
        path@ == "/api/v1/tokens/"@ + token@,
{
    let mut path: String = "/api/v1/tokens/".to_owned();
    text::push_str(&mut path, token);
    path
}

fn bool_text(b: bool) -> (s: &'static str)
    ensures
        s@ == bool_chars(b),
{
    if b {
        "true"
    } else {
        "false"
    }
}

pub open spec fn bool_chars(b: bool) -> Seq<char> {
    if b {
        "true"@
    } else {
        "false"@
    }
}

/// The header of the token table, as a value.
pub open spec fn token_head() -> Seq<char> {
    table_line(
        seq!["TOKEN"@, "USED"@, "LABEL"@, "CREATED_AT_NS"@],
        seq![64usize, 6, 20],
        "  "@,
    )
}

/// The header of the token table.
pub fn token_header() -> (line: String)
    ensures
        line@ == token_head(),
{
    let cells: [&str; 4] = ["TOKEN", "USED", "LABEL", "CREATED_AT_NS"];
    let widths: [usize; 3] = [64, 6, 20];
    assert(plugin::slices(cells@) =~= seq!["TOKEN"@, "USED"@, "LABEL"@, "CREATED_AT_NS"@]);
    assert(widths@ =~= seq![64usize, 6, 20]);
    layout(&cells, &widths, "  ")
}

/// One line of the token table, as a value.
pub open spec fn token_chars(
    token: Seq<char>,
    used: bool,
    label: Seq<char>,
    created_at_ns: u64,
) -> Seq<char> {
    table_line(
        seq![
            token,
            bool_chars(used),
            truncated(label, 20),
            text::decimal(created_at_ns as nat),
        ],
        seq![64usize, 6, 20],
        "  "@,
    )
}

/// One line of the token table.
pub fn token_line(token: &str, used: bool, label: &str, created_at_ns: u64) -> (line: String)
    ensures
        line@ == token_chars(token@, used, label@, created_at_ns),
{
    let label: String = truncate(label, 20);
    let created: String = text::decimal_string(created_at_ns);
    let cells: [&str; 4] = [token, bool_text(used), label.as_str(), created.as_str()];
    let widths: [usize; 3] = [64, 6, 20];
    assert(plugin::slices(cells@) =~= seq![token@, bool_chars(used), label@, created@]);
    assert(widths@ =~= seq![64usize, 6, 20]);
    layout(&cells, &widths, "  ")
}

/// The header of the agent table, as a value.
pub open spec fn agent_head() -> Seq<char> {
    table_line(
        seq!["AGENT_ID"@, "HOSTNAME"@, "OS"@, "LAST_SEEN_NS"@],
        seq![36usize, 24, 10],
        "  "@,
    )
}

/// The header of the agent table.
pub fn agent_header() -> (line: String)
    ensures
        line@ == agent_head(),
{
    let cells: [&str; 4] = ["AGENT_ID", "HOSTNAME", "OS", "LAST_SEEN_NS"];
    let widths: [usize; 3] = [36, 24, 10];
    assert(plugin::slices(cells@) =~= seq!["AGENT_ID"@, "HOSTNAME"@, "OS"@, "LAST_SEEN_NS"@]);
    assert(widths@ =~= seq![36usize, 24, 10]);
    layout(&cells, &widths, "  ")
}

/// One line of the agent table, as a value.
pub open spec fn agent_chars(
    agent_id: Seq<char>,
    hostname: Seq<char>,
    os: Seq<char>,
    last_seen_ns: u64,
) -> Seq<char> {
    table_line(
        seq![
            agent_id,
            truncated(hostname, 24),
            truncated(os, 10),
            text::decimal(last_seen_ns as nat),
        ],
        seq![36usize, 24, 10],
        "  "@,
    )
}

/// One line of the agent table.
pub fn agent_line(agent_id: &str, hostname: &str, os: &str, last_seen_ns: u64) -> (line: String)
    ensures
        line@ == agent_chars(agent_id@, hostname@, os@, last_seen_ns),
{
    let hostname: String = truncate(hostname, 24);
    let os: String = truncate(os, 10);
    let seen: String = text::decimal_string(last_seen_ns);
    let cells: [&str; 4] = [agent_id, hostname.as_str(), os.as_str(), seen.as_str()];
    let widths: [usize; 3] = [36, 24, 10];
    assert(plugin::slices(cells@) =~= seq![agent_id@, hostname@, os@, seen@]);
    assert(widths@ =~= seq![36usize, 24, 10]);
    layout(&cells, &widths, "  ")
}

/// The header of the alert table, as a value.
pub open spec fn alert_head() -> Seq<char> {
    table_line(
        seq!["SEVERITY"@, "TITLE"@, "AGENT_ID"@, "ACK"@, "TS_NS"@],
        seq![10usize, 30, 36, 5],
        "  "@,
    )
}

/// The header of the alert table.
pub fn alert_header() -> (line: String)
    ensures
        line@ == alert_head(),
{
    let cells: [&str; 5] = ["SEVERITY", "TITLE", "AGENT_ID", "ACK", "TS_NS"];
    let widths: [usize; 4] = [10, 30, 36, 5];
    assert(plugin::slices(cells@) =~= seq!["SEVERITY"@, "TITLE"@, "AGENT_ID"@, "ACK"@, "TS_NS"@]);
    assert(widths@ =~= seq![10usize, 30, 36, 5]);
    layout(&cells, &widths, "  ")
}

/// One line of the alert table, as a value.
pub open spec fn alert_chars(
    severity: Seq<char>,
    title: Seq<char>,
    agent_id: Seq<char>,
    acknowledged: bool,
    ts_ns: u64,
) -> Seq<char> {
    table_line(
        seq![
            truncated(severity, 10),
            truncated(title, 30),
            agent_id,
            bool_chars(acknowledged),
            text::decimal(ts_ns as nat),
        ],
        seq![10usize, 30, 36, 5],
        "  "@,
    )
}

/// One line of the alert table.
pub fn alert_line(severity: &str, title: &str, agent_id: &str, acknowledged: bool, ts_ns: u64) -> (
    line: String)
    ensures
        line@ == alert_chars(severity@, title@, agent_id@, acknowledged, ts_ns),
{
    let severity: String = truncate(severity, 10);
    let title: String = truncate(title, 30);
    let ts: String = text::decimal_string(ts_ns);
    let cells: [&str; 5] = [
        severity.as_str(),
        title.as_str(),
        agent_id,
        bool_text(acknowledged),
        ts.as_str(),
    ];
    let widths: [usize; 4] = [10, 30, 36, 5];
    assert(plugin::slices(cells@) =~= seq![
        severity@,
        title@,
        agent_id@,
        bool_chars(acknowledged),
        ts@,
    ]);
    assert(widths@ =~= seq![10usize, 30, 36, 5]);
    layout(&cells, &widths, "  ")
}

/// The header of the score table, as a value.
pub open spec fn score_head() -> Seq<char> {
    table_line(
        seq!["AGENT_ID"@, "SUBJECT"@, "SCORE"@, "TS_NS"@],
        seq![36usize, 30, 10],
        "  "@,
    )
}

/// The header of the score table.
pub fn score_header() -> (line: String)
    ensures
        line@ == score_head(),
{
    let cells: [&str; 4] = ["AGENT_ID", "SUBJECT", "SCORE", "TS_NS"];
    let widths: [usize; 3] = [36, 30, 10];
    assert(plugin::slices(cells@) =~= seq!["AGENT_ID"@, "SUBJECT"@, "SCORE"@, "TS_NS"@]);
    assert(widths@ =~= seq![36usize, 30, 10]);
    layout(&cells, &widths, "  ")
}

/// One line of the score table, as a value.
pub open spec fn score_chars(
    agent_id: Seq<char>,
    subject: Seq<char>,
    score: Seq<char>,
    ts_ns: u64,
) -> Seq<char> {
    table_line(
        seq![
            agent_id,
            truncated(subject, 30),
            truncated(score, 10),
            text::decimal(ts_ns as nat),
        ],
        seq![36usize, 30, 10],
        "  "@,
    )
}

/// One line of the score table; the score comes as text.
pub fn score_line(agent_id: &str, subject: &str, score: &str, ts_ns: u64) -> (line: String)
    ensures
        line@ == score_chars(agent_id@, subject@, score@, ts_ns),
{
    let subject: String = truncate(subject, 30);
    let score: String = truncate(score, 10);
    let ts: String = text::decimal_string(ts_ns);
    let cells: [&str; 4] = [agent_id, subject.as_str(), score.as_str(), ts.as_str()];
    let widths: [usize; 3] = [36, 30, 10];
    assert(plugin::slices(cells@) =~= seq![agent_id@, subject@, score@, ts@]);
    assert(widths@ =~= seq![36usize, 30, 10]);
    layout(&cells, &widths, "  ")
}

/// The header of the detection table, as a value.
pub open spec fn detection_head() -> Seq<char> {
    table_line(
        seq!["AGENT_ID"@, "SUBJECT"@, "VERDICT"@, "CONFIDENCE"@, "TS_NS"@],
        seq![36usize, 30, 10, 10],
        "  "@,
    )
}

/// The header of the detection table.
pub fn detection_header() -> (line: String)
    ensures
        line@ == detection_head(),
{
    let cells: [&str; 5] = ["AGENT_ID", "SUBJECT", "VERDICT", "CONFIDENCE", "TS_NS"];
    let widths: [usize; 4] = [36, 30, 10, 10];
    assert(plugin::slices(cells@) =~= seq![
        "AGENT_ID"@,
        "SUBJECT"@,
        "VERDICT"@,
        "CONFIDENCE"@,
        "TS_NS"@,
    ]);
    assert(widths@ =~= seq![36usize, 30, 10, 10]);
    layout(&cells, &widths, "  ")
}

/// One line of the detection table, as a value.
pub open spec fn detection_chars(
    agent_id: Seq<char>,
    subject: Seq<char>,
    verdict: Seq<char>,
    confidence: Seq<char>,
    ts_ns: u64,
) -> Seq<char> {
    table_line(
        seq![
            agent_id,
            truncated(subject, 30),
            truncated(verdict, 10),
            truncated(confidence, 10),
            text::decimal(ts_ns as nat),
        ],
        seq![36usize, 30, 10, 10],
        "  "@,
    )
}

/// One line of the detection table; the confidence comes as text.
pub fn detection_line(
    agent_id: &str,
    subject: &str,
    verdict: &str,
    confidence: &str,
    ts_ns: u64,
) -> (line: String)
    ensures
        line@ == detection_chars(agent_id@, subject@, verdict@, confidence@, ts_ns),
{
    let subject: String = truncate(subject, 30);
    let verdict: String = truncate(verdict, 10);
    let confidence: String = truncate(confidence, 10);
    let ts: String = text::decimal_string(ts_ns);
    let cells: [&str; 5] = [
        agent_id,
        subject.as_str(),
        verdict.as_str(),
        confidence.as_str(),
        ts.as_str(),
    ];
    let widths: [usize; 4] = [36, 30, 10, 10];
    assert(plugin::slices(cells@) =~= seq![agent_id@, subject@, verdict@, confidence@, ts@]);
    assert(widths@ =~= seq![36usize, 30, 10, 10]);
    layout(&cells, &widths, "  ")
}

pub open spec fn kind_chars(kind: PluginKind) -> Seq<char> {
    match kind {
        PluginKind::Collector => "Collector"@,
        PluginKind::Processor => "Processor"@,
        PluginKind::Sink => "Sink"@,
        PluginKind::Control => "Control"@,
    }
}

/// The name of a plugin's role.
pub fn kind_name(kind: PluginKind) -> (name: &'static str)
    ensures
        name@ == kind_chars(kind),
{
    match kind {
        PluginKind::Collector => "Collector",
        PluginKind::Processor => "Processor",
        PluginKind::Sink => "Sink",
        PluginKind::Control => "Control",
    }
}

/// The header of the plugin table.
pub fn plugin_header() -> (line: String)
    ensures
        line@ == table_line(
            seq!["NAME"@, "KIND"@, "VERSION"@, "DESCRIPTION"@],
            seq![24usize, 10, 8],
            " "@,
        ),
{
    let cells: [&str; 4] = ["NAME", "KIND", "VERSION", "DESCRIPTION"];
    let widths: [usize; 3] = [24, 10, 8];
    assert(plugin::slices(cells@) =~= seq!["NAME"@, "KIND"@, "VERSION"@, "DESCRIPTION"@]);
    assert(widths@ =~= seq![24usize, 10, 8]);
    layout(&cells, &widths, " ")
}

/// One line of the plugin table.
pub fn plugin_line(meta: &PluginMetadata) -> (line: String)
    ensures
        line@ == table_line(
            seq![meta.name@, kind_chars(meta.kind), meta.version@, meta.description@],
            seq![24usize, 10, 8],
            " "@,
        ),
{
    let cells: [&str; 4] = [meta.name, kind_name(meta.kind), meta.version, meta.description];
    let widths: [usize; 3] = [24, 10, 8];
    assert(plugin::slices(cells@) =~= seq![
        meta.name@,
        kind_chars(meta.kind),
        meta.version@,
        meta.description@,
    ]);
    assert(widths@ =~= seq![24usize, 10, 8]);
    layout(&cells, &widths, " ")
}

/// The versions that this build speaks, as three lines.
pub fn version_text(version: &str) -> (out: String)
    ensures
        out@ == "aegisctl "@ + version@ + "\nplugin API version "@ + text::decimal(
            PLUGIN_API_VERSION as nat,
        ) + "\nwire protocol version "@ + text::decimal(PROTO_VERSION as nat),
{
    let mut out: String = "aegisctl ".to_owned();
    text::push_str(&mut out, version);
    text::push_str(&mut out, "\nplugin API version ");
    text::push_decimal(&mut out, PLUGIN_API_VERSION as u64);
    text::push_str(&mut out, "\nwire protocol version ");
    text::push_decimal(&mut out, PROTO_VERSION as u64);
    out
}

/// A member that is shown empty where it is missing.
pub open spec fn shown(member: Option<Seq<char>>) -> Seq<char> {
    match member {
        Some(s) => s,
        None => Seq::empty(),
    }
}

fn string_or_empty(body: &[u8], name: &str) -> (out: String)
    ensures
        out@ == shown(json::string_member(body@, name@)),
{
    match json::read_string(body, name) {
        Some(s) => s,
        None => String::new(),
    }
}

fn number_or_zero(body: &[u8], name: &str) -> (out: u64)
    ensures
        out == json::number_member(body@, name@).unwrap_or(0),
{
    match json::read_number(body, name) {
        Some(n) => n,
        None => 0,
    }
}

/// The lines of a table, as values.
pub open spec fn line_views(lines: Seq<String>) -> Seq<Seq<char>> {
    lines.map_values(|line: String| line@)
}

/// What is shown of a member of item `i` of a listing that should be a string: nothing
/// where it is missing.
pub open spec fn string_at(body: Seq<u8>, name: Seq<char>, i: int) -> Seq<char> {
    match json::string_members(body, name) {
        Some(list) => shown(list[i]),
        None => Seq::empty(),
    }
}

/// What is shown of a member of item `i` of a listing that should be a real number:
/// nothing where it is missing.
pub open spec fn number_text_at(body: Seq<u8>, name: Seq<char>, i: int) -> Seq<char> {
    match json::number_texts(body, name) {
        Some(list) => shown(list[i]),
        None => Seq::empty(),
    }
}

/// What is shown of a member of item `i` of a listing that should be a whole number:
/// zero where it is missing.
pub open spec fn number_at(body: Seq<u8>, name: Seq<char>, i: int) -> u64 {
    match json::number_members(body, name) {
        Some(list) => list[i].unwrap_or(0),
        None => 0,
    }
}

/// What is shown of a member of item `i` of a listing that should be a truth value:
/// `false` where it is missing.
pub open spec fn bool_at(body: Seq<u8>, name: Seq<char>, i: int) -> bool {
    match json::bool_members(body, name) {
        Some(list) => list[i].unwrap_or(false),
        None => false,
    }
}

/// The number of items of a listing; none where the response is no array.
pub open spec fn item_count(body: Seq<u8>) -> nat {
    match json::array_len(body) {
        Some(n) => n,
        None => 0,
    }
}

fn shown_texts(list: Vec<Option<String>>) -> (out: Vec<String>)
    ensures
        out@.len() == list@.len(),
        forall|i: int| 0 <= i < out@.len() ==> (#[trigger] out@[i])@ == shown(
            json::opt_texts(list@)[i],
        ),
{
    let mut out: Vec<String> = Vec::new();
    let mut i: usize = 0;
    while i < list.len()
        invariant
            i <= list@.len(),
            out@.len() == i,
            forall|j: int| 0 <= j < i ==> (#[trigger] out@[j])@ == shown(json::opt_texts(list@)[j]),
        decreases list@.len() - i,
    {
        let text: String = match &list[i] {
            Some(s) => s.clone(),
            None => String::new(),
        };
        out.push(text);
        i = i + 1;
    }
    out
}

fn strings_of(body: &[u8], name: &str) -> (out: Vec<String>)
    ensures
        out@.len() == item_count(body@),
        forall|i: int| 0 <= i < out@.len() ==> (#[trigger] out@[i])@ == string_at(body@, name@, i),
{
    match json::read_strings(body, name) {
        Some(list) => shown_texts(list),
        None => Vec::new(),
    }
}

fn number_texts_of(body: &[u8], name: &str) -> (out: Vec<String>)
    ensures
        out@.len() == item_count(body@),
        forall|i: int| 0 <= i < out@.len() ==> (#[trigger] out@[i])@ == number_text_at(
            body@,
            name@,
            i,
        ),
{
    match json::read_number_texts(body, name) {
        Some(list) => shown_texts(list),
        None => Vec::new(),
    }
}

fn numbers_of(body: &[u8], name: &str) -> (out: Vec<u64>)
    ensures
        out@.len() == item_count(body@),
        forall|i: int| 0 <= i < out@.len() ==> #[trigger] out@[i] == number_at(body@, name@, i),
{
    let mut out: Vec<u64> = Vec::new();
    if let Some(list) = json::read_numbers(body, name) {
        let mut i: usize = 0;
        while i < list.len()
            invariant
                i <= list@.len(),
                out@.len() == i,
                forall|j: int| 0 <= j < i ==> #[trigger] out@[j] == list@[j].unwrap_or(0),
            decreases list@.len() - i,
        {
            out.push(
                match list[i] {
                    Some(n) => n,
                    None => 0,
                },
            );
            i = i + 1;
        }
    }
    out
}

fn bools_of(body: &[u8], name: &str) -> (out: Vec<bool>)
    ensures
        out@.len() == item_count(body@),
        forall|i: int| 0 <= i < out@.len() ==> #[trigger] out@[i] == bool_at(body@, name@, i),
{
    let mut out: Vec<bool> = Vec::new();
    if let Some(list) = json::read_bools(body, name) {
        let mut i: usize = 0;
        while i < list.len()
            invariant
                i <= list@.len(),
                out@.len() == i,
                forall|j: int| 0 <= j < i ==> #[trigger] out@[j] == list@[j].unwrap_or(false),
            decreases list@.len() - i,
        {
            out.push(
                match list[i] {
                    Some(b) => b,
                    None => false,
                },
            );
            i = i + 1;
        }
    }
    out
}

/// The table of tokens, header first, given the fields of each, column by column.
pub fn token_lines(
    tokens: &Vec<String>,
    used: &Vec<bool>,
    labels: &Vec<String>,
    created: &Vec<u64>,
) -> (lines: Vec<String>)
    requires
        used@.len() == tokens@.len(),
        labels@.len() == tokens@.len(),
        created@.len() == tokens@.len(),
    ensures
        line_views(lines@) == seq![token_head()] + Seq::new(
            tokens@.len(),
            |i: int| token_chars(tokens@[i]@, used@[i], labels@[i]@, created@[i]),
        ),
{
    let ghost rows = Seq::new(
        tokens@.len(),
        |i: int| token_chars(tokens@[i]@, used@[i], labels@[i]@, created@[i]),
    );
    let mut lines: Vec<String> = vec![token_header()];
    let mut i: usize = 0;
    assert(line_views(lines@) =~= seq![token_head()] + rows.take(0));
    while i < tokens.len()
        invariant
            i <= tokens@.len(),
            used@.len() == tokens@.len(),
            labels@.len() == tokens@.len(),
            created@.len() == tokens@.len(),
            rows == Seq::new(
                tokens@.len(),
                |i: int| token_chars(tokens@[i]@, used@[i], labels@[i]@, created@[i]),
            ),
            line_views(lines@) == seq![token_head()] + rows.take(i as int),
        decreases tokens@.len() - i,
    {
        let ghost before = lines@;
        let line: String = token_line(tokens[i].as_str(), used[i], labels[i].as_str(), created[i]);
        lines.push(line);
        assert(rows[i as int] == line@);
        assert(line_views(lines@) =~= line_views(before).push(line@));
        assert(line_views(lines@) =~= seq![token_head()] + rows.take(i + 1));
        i = i + 1;
    }
    assert(rows.take(rows.len() as int) =~= rows);
    lines
}

/// The line of item `i` of a listing of tokens.
pub open spec fn token_row(body: Seq<u8>, i: int) -> Seq<char> {
    token_chars(
        string_at(body, "token"@, i),
        bool_at(body, "used"@, i),
        string_at(body, "label"@, i),
        number_at(body, "created_at_ns"@, i),
    )
}

/// The table of a listing of tokens, header first.
pub fn token_table(body: &[u8]) -> (lines: Vec<String>)
    ensures
        line_views(lines@) == seq![token_head()] + Seq::new(
            item_count(body@),
            |i: int| token_row(body@, i),
        ),
{
    let tokens: Vec<String> = strings_of(body, "token");
    let used: Vec<bool> = bools_of(body, "used");
    let labels: Vec<String> = strings_of(body, "label");
    let created: Vec<u64> = numbers_of(body, "created_at_ns");
    let lines: Vec<String> = token_lines(&tokens, &used, &labels, &created);
    assert(line_views(lines@) =~= seq![token_head()] + Seq::new(
        item_count(body@),
        |i: int| token_row(body@, i),
    ));
    lines
}

/// The table of agents, header first, given the fields of each, column by column.
pub fn agent_lines(
    agent_ids: &Vec<String>,
    hostnames: &Vec<String>,
    oses: &Vec<String>,
    seen: &Vec<u64>,
) -> (lines: Vec<String>)
    requires
        hostnames@.len() == agent_ids@.len(),
        oses@.len() == agent_ids@.len(),
        seen@.len() == agent_ids@.len(),
    ensures
        line_views(lines@) == seq![agent_head()] + Seq::new(
            agent_ids@.len(),
            |i: int| agent_chars(agent_ids@[i]@, hostnames@[i]@, oses@[i]@, seen@[i]),
        ),
{
    let ghost rows = Seq::new(
        agent_ids@.len(),
        |i: int| agent_chars(agent_ids@[i]@, hostnames@[i]@, oses@[i]@, seen@[i]),
    );
    let mut lines: Vec<String> = vec![agent_header()];
    let mut i: usize = 0;
    assert(line_views(lines@) =~= seq![agent_head()] + rows.take(0));
    while i < agent_ids.len()
        invariant
            i <= agent_ids@.len(),
            hostnames@.len() == agent_ids@.len(),
            oses@.len() == agent_ids@.len(),
            seen@.len() == agent_ids@.len(),
            rows == Seq::new(
                agent_ids@.len(),
                |i: int| agent_chars(agent_ids@[i]@, hostnames@[i]@, oses@[i]@, seen@[i]),
            ),
            line_views(lines@) == seq![agent_head()] + rows.take(i as int),
        decreases agent_ids@.len() - i,
    {
        let ghost before = lines@;
        let line: String = agent_line(agent_ids[i].as_str(), hostnames[i].as_str(), oses[i].as_str(), seen[i]);
        lines.push(line);
        assert(rows[i as int] == line@);
        assert(line_views(lines@) =~= line_views(before).push(line@));
        assert(line_views(lines@) =~= seq![agent_head()] + rows.take(i + 1));
        i = i + 1;
    }
    assert(rows.take(rows.len() as int) =~= rows);
    lines
}

/// The line of item `i` of a listing of agents.
pub open spec fn agent_row(body: Seq<u8>, i: int) -> Seq<char> {
    agent_chars(
        string_at(body, "agent_id"@, i),
        string_at(body, "hostname"@, i),
        string_at(body, "os"@, i),
        number_at(body, "last_seen_ns"@, i),
    )
}

/// The table of a listing of agents, header first.
pub fn agent_table(body: &[u8]) -> (lines: Vec<String>)
    ensures
        line_views(lines@) == seq![agent_head()] + Seq::new(
            item_count(body@),
            |i: int| agent_row(body@, i),
        ),
{
    let agent_ids: Vec<String> = strings_of(body, "agent_id");
    let hostnames: Vec<String> = strings_of(body, "hostname");
    let oses: Vec<String> = strings_of(body, "os");
    let seen: Vec<u64> = numbers_of(body, "last_seen_ns");
    let lines: Vec<String> = agent_lines(&agent_ids, &hostnames, &oses, &seen);
    assert(line_views(lines@) =~= seq![agent_head()] + Seq::new(
        item_count(body@),
        |i: int| agent_row(body@, i),
    ));
    lines
}

/// The table of alerts, header first, given the fields of each, column by column.
pub fn alert_lines(
    severities: &Vec<String>,
    titles: &Vec<String>,
    agent_ids: &Vec<String>,
    acknowledged: &Vec<bool>,
    times: &Vec<u64>,
) -> (lines: Vec<String>)
    requires
        titles@.len() == severities@.len(),
        agent_ids@.len() == severities@.len(),
        acknowledged@.len() == severities@.len(),
        times@.len() == severities@.len(),
    ensures
        line_views(lines@) == seq![alert_head()] + Seq::new(
            severities@.len(),
            |i: int| alert_chars(severities@[i]@, titles@[i]@, agent_ids@[i]@, acknowledged@[i], times@[i]),
        ),
{
    let ghost rows = Seq::new(
        severities@.len(),
        |i: int| alert_chars(severities@[i]@, titles@[i]@, agent_ids@[i]@, acknowledged@[i], times@[i]),
    );
    let mut lines: Vec<String> = vec![alert_header()];
    let mut i: usize = 0;
    assert(line_views(lines@) =~= seq![alert_head()] + rows.take(0));
    while i < severities.len()
        invariant
            i <= severities@.len(),
            titles@.len() == severities@.len(),
            agent_ids@.len() == severities@.len(),
            acknowledged@.len() == severities@.len(),
            times@.len() == severities@.len(),
            rows == Seq::new(
                severities@.len(),
                |i: int| alert_chars(severities@[i]@, titles@[i]@, agent_ids@[i]@, acknowledged@[i], times@[i]),
            ),
            line_views(lines@) == seq![alert_head()] + rows.take(i as int),
        decreases severities@.len() - i,
    {
        let ghost before = lines@;
        let line: String = alert_line(severities[i].as_str(), titles[i].as_str(), agent_ids[i].as_str(), acknowledged[i], times[i]);
        lines.push(line);
        assert(rows[i as int] == line@);
        assert(line_views(lines@) =~= line_views(before).push(line@));
        assert(line_views(lines@) =~= seq![alert_head()] + rows.take(i + 1));
        i = i + 1;
    }
    assert(rows.take(rows.len() as int) =~= rows);
    lines
}

/// The line of item `i` of a listing of alerts.
pub open spec fn alert_row(body: Seq<u8>, i: int) -> Seq<char> {
    alert_chars(
        string_at(body, "severity"@, i),
        string_at(body, "title"@, i),
        string_at(body, "agent_id"@, i),
        bool_at(body, "acknowledged"@, i),
        number_at(body, "ts_ns"@, i),
    )
}

/// The table of a listing of alerts, header first.
pub fn alert_table(body: &[u8]) -> (lines: Vec<String>)
    ensures
        line_views(lines@) == seq![alert_head()] + Seq::new(
            item_count(body@),
            |i: int| alert_row(body@, i),
        ),
{
    let severities: Vec<String> = strings_of(body, "severity");
    let titles: Vec<String> = strings_of(body, "title");
    let agent_ids: Vec<String> = strings_of(body, "agent_id");
    let acknowledged: Vec<bool> = bools_of(body, "acknowledged");
    let times: Vec<u64> = numbers_of(body, "ts_ns");
    let lines: Vec<String> = alert_lines(&severities, &titles, &agent_ids, &acknowledged, &times);
    assert(line_views(lines@) =~= seq![alert_head()] + Seq::new(
        item_count(body@),
        |i: int| alert_row(body@, i),
    ));
    lines
}

/// The table of scores, header first, given the fields of each, column by column.
pub fn score_lines(
    agent_ids: &Vec<String>,
    subjects: &Vec<String>,
    scores: &Vec<String>,
    times: &Vec<u64>,
) -> (lines: Vec<String>)
    requires
        subjects@.len() == agent_ids@.len(),
        scores@.len() == agent_ids@.len(),
        times@.len() == agent_ids@.len(),
    ensures
        line_views(lines@) == seq![score_head()] + Seq::new(
            agent_ids@.len(),
            |i: int| score_chars(agent_ids@[i]@, subjects@[i]@, scores@[i]@, times@[i]),
        ),
{
    let ghost rows = Seq::new(
        agent_ids@.len(),
        |i: int| score_chars(agent_ids@[i]@, subjects@[i]@, scores@[i]@, times@[i]),
    );
    let mut lines: Vec<String> = vec![score_header()];
    let mut i: usize = 0;
    assert(line_views(lines@) =~= seq![score_head()] + rows.take(0));
    while i < agent_ids.len()
        invariant
            i <= agent_ids@.len(),
            subjects@.len() == agent_ids@.len(),
            scores@.len() == agent_ids@.len(),
            times@.len() == agent_ids@.len(),
            rows == Seq::new(
                agent_ids@.len(),
                |i: int| score_chars(agent_ids@[i]@, subjects@[i]@, scores@[i]@, times@[i]),
            ),
            line_views(lines@) == seq![score_head()] + rows.take(i as int),
        decreases agent_ids@.len() - i,
    {
        let ghost before = lines@;
        let line: String = score_line(agent_ids[i].as_str(), subjects[i].as_str(), scores[i].as_str(), times[i]);
        lines.push(line);
        assert(rows[i as int] == line@);
        assert(line_views(lines@) =~= line_views(before).push(line@));
        assert(line_views(lines@) =~= seq![score_head()] + rows.take(i + 1));
        i = i + 1;
    }
    assert(rows.take(rows.len() as int) =~= rows);
    lines
}

/// The line of item `i` of a listing of scores.
pub open spec fn score_row(body: Seq<u8>, i: int) -> Seq<char> {
    score_chars(
        string_at(body, "agent_id"@, i),
        string_at(body, "subject"@, i),
        number_text_at(body, "score"@, i),
        number_at(body, "ts_ns"@, i),
    )
}

/// The table of a listing of scores, header first.
pub fn score_table(body: &[u8]) -> (lines: Vec<String>)
    ensures
        line_views(lines@) == seq![score_head()] + Seq::new(
            item_count(body@),
            |i: int| score_row(body@, i),
        ),
{
    let agent_ids: Vec<String> = strings_of(body, "agent_id");
    let subjects: Vec<String> = strings_of(body, "subject");
    let scores: Vec<String> = number_texts_of(body, "score");
    let times: Vec<u64> = numbers_of(body, "ts_ns");
    let lines: Vec<String> = score_lines(&agent_ids, &subjects, &scores, &times);
    assert(line_views(lines@) =~= seq![score_head()] + Seq::new(
        item_count(body@),
        |i: int| score_row(body@, i),
    ));
    lines
}

/// The rows whose flag is set, in order.
pub open spec fn chosen(rows: Seq<Seq<char>>, flags: Seq<bool>) -> Seq<Seq<char>>
    decreases rows.len(),
{
    if rows.len() == 0 {
        Seq::empty()
    } else {
        let before = chosen(rows.drop_last(), flags.drop_last());
        if flags.last() {
            before.push(rows.last())
        } else {
            before
        }
    }
}

/// Whether a verdict is the one that is asked for, if one is.
pub open spec fn is_wanted(verdict: Seq<char>, wanted: Option<Seq<char>>) -> bool {
    wanted matches Some(w) ==> verdict == w
}

/// The table of the detections with a verdict, header first, given the fields of each,
/// column by column: the listing of one agent comes unfiltered.
pub fn detection_lines(
    agent_ids: &Vec<String>,
    subjects: &Vec<String>,
    verdicts: &Vec<String>,
    confidences: &Vec<String>,
    times: &Vec<u64>,
    wanted: Option<&str>,
) -> (lines: Vec<String>)
    requires
        subjects@.len() == agent_ids@.len(),
        verdicts@.len() == agent_ids@.len(),
        confidences@.len() == agent_ids@.len(),
        times@.len() == agent_ids@.len(),
    ensures
        line_views(lines@) == seq![detection_head()] + chosen(
            Seq::new(
                agent_ids@.len(),
                |i: int|
                    detection_chars(
                        agent_ids@[i]@,
                        subjects@[i]@,
                        verdicts@[i]@,
                        confidences@[i]@,
                        times@[i],
                    ),
            ),
            Seq::new(agent_ids@.len(), |i: int| is_wanted(verdicts@[i]@, opt_str(wanted))),
        ),
{
    let ghost rows = Seq::new(
        agent_ids@.len(),
        |i: int|
            detection_chars(
                agent_ids@[i]@,
                subjects@[i]@,
                verdicts@[i]@,
                confidences@[i]@,
                times@[i],
            ),
    );
    let ghost flags = Seq::new(
        agent_ids@.len(),
        |i: int| is_wanted(verdicts@[i]@, opt_str(wanted)),
    );
    let mut lines: Vec<String> = vec![detection_header()];
    let mut i: usize = 0;
    assert(line_views(lines@) =~= seq![detection_head()] + chosen(rows.take(0), flags.take(0)));
    while i < agent_ids.len()
        invariant
            i <= agent_ids@.len(),
            subjects@.len() == agent_ids@.len(),
            verdicts@.len() == agent_ids@.len(),
            confidences@.len() == agent_ids@.len(),
            times@.len() == agent_ids@.len(),
            rows == Seq::new(
                agent_ids@.len(),
                |i: int|
                    detection_chars(
                        agent_ids@[i]@,
                        subjects@[i]@,
                        verdicts@[i]@,
                        confidences@[i]@,
                        times@[i],
                    ),
            ),
            flags == Seq::new(
                agent_ids@.len(),
                |i: int| is_wanted(verdicts@[i]@, opt_str(wanted)),
            ),
            line_views(lines@) == seq![detection_head()] + chosen(
                rows.take(i as int),
                flags.take(i as int),
            ),
        decreases agent_ids@.len() - i,
    {
        let ghost before = lines@;
        let ghost earlier = chosen(rows.take(i as int), flags.take(i as int));
        assert(rows.take(i + 1).drop_last() =~= rows.take(i as int));
        assert(flags.take(i + 1).drop_last() =~= flags.take(i as int));
        let wants: bool = match wanted {
            Some(w) => text::same(verdicts[i].as_str(), w),
            None => true,
        };
        assert(flags[i as int] == wants);
        if wants {
            let line: String = detection_line(
                agent_ids[i].as_str(),
                subjects[i].as_str(),
                verdicts[i].as_str(),
                confidences[i].as_str(),
                times[i],
            );
            lines.push(line);
            assert(rows[i as int] == line@);
            assert(line_views(lines@) =~= line_views(before).push(line@));
            assert(line_views(lines@) =~= seq![detection_head()] + earlier.push(line@));
        }
        i = i + 1;
    }
    assert(rows.take(rows.len() as int) =~= rows);
    assert(flags.take(flags.len() as int) =~= flags);
    lines
}

/// The line of item `i` of a listing of detections.
pub open spec fn detection_row(body: Seq<u8>, i: int) -> Seq<char> {
    detection_chars(
        string_at(body, "agent_id"@, i),
        string_at(body, "subject"@, i),
        string_at(body, "verdict"@, i),
        number_text_at(body, "confidence"@, i),
        number_at(body, "ts_ns"@, i),
    )
}

/// The table of a listing of detections, header first: those with the verdict that is
/// asked for, if one is.
pub fn verdict_table(body: &[u8], wanted: Option<&str>) -> (lines: Vec<String>)
    ensures
        line_views(lines@) == seq![detection_head()] + chosen(
            Seq::new(item_count(body@), |i: int| detection_row(body@, i)),
            Seq::new(
                item_count(body@),
                |i: int| is_wanted(string_at(body@, "verdict"@, i), opt_str(wanted)),
            ),
        ),
{
    let agent_ids: Vec<String> = strings_of(body, "agent_id");
    let subjects: Vec<String> = strings_of(body, "subject");
    let verdicts: Vec<String> = strings_of(body, "verdict");
    let confidences: Vec<String> = number_texts_of(body, "confidence");
    let times: Vec<u64> = numbers_of(body, "ts_ns");
    proof {
        assert(Seq::new(
            agent_ids@.len(),
            |i: int|
                detection_chars(
                    agent_ids@[i]@,
                    subjects@[i]@,
                    verdicts@[i]@,
                    confidences@[i]@,
                    times@[i],
                ),
        ) =~= Seq::new(item_count(body@), |i: int| detection_row(body@, i)));
        assert(Seq::new(
            agent_ids@.len(),
            |i: int| is_wanted(verdicts@[i]@, opt_str(wanted)),
        ) =~= Seq::new(
            item_count(body@),
            |i: int| is_wanted(string_at(body@, "verdict"@, i), opt_str(wanted)),
        ));
    }
    detection_lines(&agent_ids, &subjects, &verdicts, &confidences, &times, wanted)
}

/// What is printed of a token and its fingerprint.
pub open spec fn created_chars(token: Seq<char>, fingerprint: Seq<char>) -> Seq<char> {
    "token:       "@ + token + "\nfingerprint: "@ + fingerprint
        + "\n\nPin the fingerprint on the agent, then enroll with the token above."@
}

/// What is printed of a token and its fingerprint.
pub fn created_lines(token: &str, fingerprint: &str) -> (out: String)
    ensures
        out@ == created_chars(token@, fingerprint@),
{
    let mut out: String = "token:       ".to_owned();
    text::push_str(&mut out, token);
    text::push_str(&mut out, "\nfingerprint: ");
    text::push_str(&mut out, fingerprint);
    text::push_str(
        &mut out,
        "\n\nPin the fingerprint on the agent, then enroll with the token above.",
    );
    out
}

/// What is printed of the response to a token creation.
pub fn created_text(body: &[u8]) -> (out: String)
    ensures
        out@ == created_chars(
            shown(json::string_member(body@, "token"@)),
            shown(json::string_member(body@, "fingerprint"@)),
        ),
{
    created_lines(
        string_or_empty(body, "token").as_str(),
        string_or_empty(body, "fingerprint").as_str(),
    )
}

/// What is printed of a server's status.
pub open spec fn status_chars(
    fingerprint: Seq<char>,
    proto_version: nat,
    agents: Option<nat>,
) -> Seq<char> {
    "fingerprint:    "@ + fingerprint + "\nproto version:  "@ + text::decimal(proto_version)
        + "\nagents:         "@ + match agents {
        Some(n) => text::decimal(n),
        None => "(unavailable)"@,
    }
}

/// What is printed of a server's status.
pub fn status_lines(fingerprint: &str, proto_version: u64, agents: Option<usize>) -> (out: String)
    ensures
        out@ == status_chars(
            fingerprint@,
            proto_version as nat,
            match agents {
                Some(n) => Some(n as nat),
                None => None,
            },
        ),
{
    let mut out: String = "fingerprint:    ".to_owned();
    text::push_str(&mut out, fingerprint);
    text::push_str(&mut out, "\nproto version:  ");
    text::push_decimal(&mut out, proto_version);
    text::push_str(&mut out, "\nagents:         ");
    match agents {
        Some(n) => text::push_decimal(&mut out, n as u64),
        None => text::push_str(&mut out, "(unavailable)"),
    }
    out
}

/// The agent count of a status: the length of the listing, where there was one.
pub open spec fn agent_count(listing: Option<(u16, Seq<u8>)>) -> Option<nat> {
    match listing {
        Some((status, body)) => if status == 200 {
            json::array_len(body)
        } else {
            None
        },
        None => None,
    }
}

/// Counts the agents of a listing response, if it is one.
pub fn count_agents(listing: Option<&Response>) -> (n: Option<usize>)
    ensures
        match n {
            Some(n) => agent_count(
                match listing {
                    Some(r) => Some((r.status, r.body@)),
                    None => None,
                },
            ) == Some(n as nat),
            None => agent_count(
                match listing {
                    Some(r) => Some((r.status, r.body@)),
                    None => None,
                },
            ) is None,
        },
{
    match listing {
        Some(r) => {
            if r.status == 200 {
                json::count_items(r.body.as_slice())
            } else {
                None
            }
        },
        None => None,
    }
}

/// What is printed of a server-info response and an agent listing.
pub fn status_text(info: &[u8], listing: Option<&Response>) -> (out: String)
    ensures
        out@ == status_chars(
            shown(json::string_member(info@, "fingerprint"@)),
            json::number_member(info@, "proto_version"@).unwrap_or(0) as nat,
            agent_count(
                match listing {
                    Some(r) => Some((r.status, r.body@)),
                    None => None,
                },
            ),
        ),
{
    status_lines(
        string_or_empty(info, "fingerprint").as_str(),
        number_or_zero(info, "proto_version"),
        count_agents(listing),
    )
}

/// What `--json` prints of a response: its body, one member a line; nothing where
/// the body is no JSON.
pub fn pretty_body(body: &[u8]) -> (out: Option<String>)
    ensures
        match out {
            Some(text) => json::pretty_text(body@) == Some(text@),
            None => json::pretty_text(body@) is None,
        },
        out is Some <==> json::is_json(body@),
{
    json::prettify(body)
}

/// A server-info object with the agent count put in, over several lines; the text as it
/// is, over several lines, where there is no count or it is no object.
pub open spec fn counted(info: Seq<u8>, agents: Option<nat>) -> Option<Seq<char>> {
    match agents {
        Some(n) => match json::pretty_with_number(info, "agent_count"@, n as u64) {
            Some(text) => Some(text),
            None => json::pretty_text(info),
        },
        None => json::pretty_text(info),
    }
}

/// What `status --json` prints of a server-info response and an agent listing;
/// nothing where the info is no JSON.
pub fn status_json(info: &[u8], listing: Option<&Response>) -> (out: Option<String>)
    ensures
        ({
            let agents = agent_count(
                match listing {
                    Some(r) => Some((r.status, r.body@)),
                    None => None,
                },
            );
            match out {
                Some(text) => counted(info@, agents) == Some(text@),
                None => counted(info@, agents) is None,
            }
        }),
        out is Some <==> json::is_json(info@),
{
    if let Some(n) = count_agents(listing) {
        if let Some(text) = json::prettify_with_number(info, "agent_count", n as u64) {
            return Some(text);
        }
    }
    pretty_body(info)
}

/// The body of a request for a token.
pub fn create_body(label: &str) -> (out: Option<String>)
    ensures
        match out {
            Some(body) => json::object_with("{}"@, "label"@, label@) == Some(body@),
            None => json::object_with("{}"@, "label"@, label@) is None,
        },
{
    json::put_member("{}", "label", label)
}

/// What a revocation came to.
#[derive(Debug, Clone, PartialEq, Eq)]
pub enum Revocation {
    Revoked,
    /// The token is already used or unknown.
    Refused,
    /// The server failed; what it said.
    Failed(String),
}

/// The object that `--json` shows of a revocation.
pub open spec fn revocation_chars(status: u16, revoked: bool) -> Seq<char> {
    "{\"status\":"@ + text::decimal(status as nat) + ",\"revoked\":"@ + if revoked {
        "true}"@
    } else {
        "false}"@
    }
}

/// What `--json` shows of a revocation: the status of the response, and whether the
/// token was revoked.
pub fn revocation_json(status: u16, outcome: &Revocation) -> (out: String)
    ensures
        out@ == revocation_chars(status, *outcome is Revoked),
{
    let mut out: String = "{\"status\":".to_owned();
    text::push_decimal(&mut out, status as u64);
    text::push_str(&mut out, ",\"revoked\":");
    match outcome {
        Revocation::Revoked => text::push_str(&mut out, "true}"),
        _ => text::push_str(&mut out, "false}"),
    }
    out
}

/// What the body of a response is read as where it is no JSON error.
pub uninterp spec fn lossy_text(body: Seq<u8>) -> Seq<char>;

/// Reads bytes as text, with a replacement character for what is not UTF-8.
///
/// Calls `String::from_utf8_lossy` of std, which leaves valid UTF-8 as it is.
#[verifier::external_body]
fn read_lossy(body: &[u8]) -> (out: String)
    ensures
        out@ == lossy_text(body@),
        utf8::valid_utf8(body@) ==> out@ == utf8::decode_utf8(body@),
{
    String::from_utf8_lossy(body).into_owned()
}

/// The error line of a failed response: the server's own message where it sent
/// one, else the status and the start of the body. `message` and `text` are what
/// the body says, as JSON and as text.
pub open spec fn error_line(status: u16, message: Option<Seq<char>>, text: Seq<char>) -> Seq<char> {
    match message {
        Some(m) => "server error ("@ + text::decimal(status as nat) + "): "@ + m,
        None => {
            let body = text::trimmed(text);
            if body.len() == 0 {
                "server returned HTTP "@ + text::decimal(status as nat)
            } else {
                "server returned HTTP "@ + text::decimal(status as nat) + ": "@ + truncated(
                    body,
                    200,
                )
            }
        },
    }
}

/// Builds the error line from what the body says.
pub fn describe_error(status: u16, message: Option<String>, text: &str) -> (out: String)
    ensures
        out@ == error_line(
            status,
            match message {
                Some(m) => Some(m@),
                None => None,
            },
            text@,
        ),
{
    match message {
        Some(m) => {
            let mut out: String = "server error (".to_owned();
            text::push_decimal(&mut out, status as u64);
            text::push_str(&mut out, "): ");
            text::push_str(&mut out, m.as_str());
            out
        },
        None => {
            let chars: Vec<char> = text::chars_of(text);
            let body: String = text::string_of(text::trim(chars.as_slice()));
            let mut out: String = "server returned HTTP ".to_owned();
            text::push_decimal(&mut out, status as u64);
            if body.as_str().unicode_len() > 0 {
                text::push_str(&mut out, ": ");
                text::push_str(&mut out, truncate(body.as_str(), 200).as_str());
            }
            out
        },
    }
}

/// Why a response is not the JSON that was asked for.
#[derive(Debug, Clone, PartialEq, Eq)]
pub enum ReplyError {
    /// The status is no success; the error line.
    Status(String),
    /// The body is no JSON.
    InvalidJson,
}

impl ReplyError {
    /// The message shown to the operator.
    pub fn message(&self) -> (out: String)
        ensures
            match *self {
                ReplyError::Status(line) => out@ == line@,
                ReplyError::InvalidJson => out@ == "server returned invalid JSON"@,
            },
    {
        match self {
            ReplyError::Status(line) => line.clone(),
            ReplyError::InvalidJson => "server returned invalid JSON".to_owned(),
        }
    }
}

impl Response {
    /// A human-readable error line: the API's own message where there is one,
    /// else the status and a summary of the body.
    pub fn error_detail(&self) -> (out: String)
        ensures
            out@ == error_line(
                self.status,
                json::string_member(self.body@, "error"@),
                lossy_text(self.body@),
            ),
    {
        let message: Option<String> = json::read_string(self.body.as_slice(), "error");
        let text: String = read_lossy(self.body.as_slice());
        describe_error(self.status, message, text.as_str())
    }

    /// Requires a success status and a JSON body.
    pub fn json_ok(&self) -> (res: Result<(), ReplyError>)
        ensures
            match res {
                Ok(_) => 200 <= self.status < 300 && json::is_json(self.body@),
                Err(ReplyError::Status(line)) => !(200 <= self.status < 300) && line@ == error_line(
                    self.status,
                    json::string_member(self.body@, "error"@),
                    lossy_text(self.body@),
                ),
                Err(ReplyError::InvalidJson) => 200 <= self.status < 300 && !json::is_json(
                    self.body@,
                ),
            },
    {
        if self.status < 200 || self.status >= 300 {
            return Err(ReplyError::Status(self.error_detail()));
        }
        if json::check_json(self.body.as_slice()) {
            Ok(())
        } else {
            Err(ReplyError::InvalidJson)
        }
    }

    /// What a revocation came to: `204` removed the token, `409` refused.
    pub fn revocation(&self) -> (out: Revocation)
        ensures
            match out {
                Revocation::Revoked => self.status == 204,
                Revocation::Refused => self.status == 409,
                Revocation::Failed(line) => self.status != 204 && self.status != 409 && line@
                    == error_line(
                    self.status,
                    json::string_member(self.body@, "error"@),
                    lossy_text(self.body@),
                ),
            },
    {
        if self.status == 204 {
            Revocation::Revoked
        } else if self.status == 409 {
            Revocation::Refused
        } else {
            Revocation::Failed(self.error_detail())
        }
    }
}

} // verus!
