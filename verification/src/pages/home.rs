//! Logic of the home page: the server list, the recent connections, the snippet browser and
//! the known-hosts list.
use vstd::prelude::*;
use crate::models::{ServerConfig, ServerData, SnippetCommand, SnippetGroup, SnippetsConfig};
use crate::services::storage::{in_group, known_host_key_spec, parent_is};
use crate::text::{
    concat2, decimal, decimal_string, digit_char, first_index_of, from_chars, opt_view, owned, rfind_char,
    slice_chars, to_chars, utf8_len, utf8_width,
};

verus! {

// ---------------------------------------------------------------------------
// Snippet browser
// ---------------------------------------------------------------------------
/// Where the snippet browser stands: the ids of the groups entered, outermost first.
#[derive(Debug)]
pub struct SnippetsNav {
    pub current_path: Vec<String>,
}

/// The texts of an optional string.
pub open spec fn opt_str_view(o: Option<&str>) -> Option<Seq<char>> {
    match o {
        Some(s) => Some(s@),
        None => None,
    }
}

impl SnippetsNav {
    /// At the top level.
    pub fn new() -> (res: Self)
        ensures
            res.current_path@.len() == 0,
    {
        SnippetsNav { current_path: Vec::new() }
    }

    /// Enters group `group_id`.
    pub fn enter_group(&mut self, group_id: String)
        ensures
            final(self).current_path@ == old(self).current_path@.push(group_id),
    {
        self.current_path.push(group_id);
    }

    /// Goes back to depth `level` (0: the top level); deeper levels are left.
    pub fn go_to_level(&mut self, level: usize)
        ensures
            final(self).current_path@ == if level < old(self).current_path@.len() {
                old(self).current_path@.take(level as int)
            } else {
                old(self).current_path@
            },
    {
        self.current_path.truncate(level);
    }

    /// The group shown, or `None` at the top level.
    pub fn current_parent_id(&self) -> (res: Option<String>)
        ensures
            match res {
                Some(p) => self.current_path@.len() > 0 && p == self.current_path@.last(),
                None => self.current_path@.len() == 0,
            },
    {
        let n = self.current_path.len();
        if n == 0 {
            None
        } else {
            Some(self.current_path[n - 1].clone())
        }
    }

    /// The groups shown: the children of the current group.
    pub fn current_groups(&self, config: &SnippetsConfig) -> (res: Vec<SnippetGroup>)
        ensures
            res@ == config.groups@.filter(parent_is(if self.current_path@.len() > 0 {
                Some(self.current_path@.last()@)
            } else {
                None
            })),
    {
        match self.current_parent_id() {
            Some(p) => config.get_child_groups(Some(p.as_str())),
            None => config.get_child_groups(None),
        }
    }

    /// The commands shown: those of the current group.
    pub fn current_commands(&self, config: &SnippetsConfig) -> (res: Vec<SnippetCommand>)
        ensures
            res@ == config.commands@.filter(in_group(if self.current_path@.len() > 0 {
                Some(self.current_path@.last()@)
            } else {
                None
            })),
    {
        match self.current_parent_id() {
            Some(p) => config.get_commands_in_group(Some(p.as_str())),
            None => config.get_commands_in_group(None),
        }
    }
}

// ---------------------------------------------------------------------------
// Known hosts
// ---------------------------------------------------------------------------
/// The value of the decimal digits `s`.
pub open spec fn digits_value(s: Seq<char>) -> nat
    decreases s.len(),
{
    if s.len() == 0 {
        0
    } else {
        digits_value(s.drop_last()) * 10 + ((s.last() as u32) - ('0' as u32)) as nat
    }
}

/// All of `s` are ASCII digits.
pub open spec fn all_digits(s: Seq<char>) -> bool {
    forall|i: int| 0 <= i < s.len() ==> '0' <= #[trigger] s[i] <= '9'
}

/// The `u16` that `s` spells (`str::parse::<u16>`): an optional `+` followed by one or more
/// decimal digits, of value at most 65535.
pub open spec fn u16_text(s: Seq<char>) -> Option<u16> {
    let digits = if s.len() > 0 && s[0] == '+' {
        s.subrange(1, s.len() as int)
    } else {
        s
    };
    if digits.len() > 0 && all_digits(digits) && digits_value(digits) <= u16::MAX {
        Some(digits_value(digits) as u16)
    } else {
        None
    }
}

/// Parses a port number (`str::parse::<u16>`).
pub fn parse_u16(s: &[char]) -> (res: Option<u16>)
    ensures
        res == u16_text(s@),
{
    let start: usize = if s.len() > 0 && s[0] == '+' {
        1
    } else {
        0
    };
    let ghost digits = s@.subrange(start as int, s@.len() as int);
    proof {
        assert(s@.subrange(0, s@.len() as int) =~= s@);
    }
    if start >= s.len() {
        return None;
    }
    let mut value: u32 = 0;
    let mut i = start;
    while i < s.len()
        invariant
            start <= i <= s@.len(),
            start < s@.len(),
            start == (if s@.len() > 0 && s@[0] == '+' { 1usize } else { 0usize }),
            digits == s@.subrange(start as int, s@.len() as int),
            digits == (if s@.len() > 0 && s@[0] == '+' {
                s@.subrange(1, s@.len() as int)
            } else {
                s@
            }),
            all_digits(s@.subrange(start as int, i as int)),
            value == digits_value(s@.subrange(start as int, i as int)),
            value <= u16::MAX,
        decreases s@.len() - i,
    {
        let c = s[i];
        if !('0' <= c && c <= '9') {
            assert(digits[i - start] == c);
            return None;
        }
        proof {
            assert(s@.subrange(start as int, i + 1).drop_last() =~= s@.subrange(start as int, i as int));
        }
        let d = (c as u32) - ('0' as u32);
        let next = value * 10 + d;
        proof {
            assert(s@.subrange(start as int, i + 1).last() == c);
            assert(all_digits(s@.subrange(start as int, i + 1))) by {
                assert forall|j: int| 0 <= j < i + 1 - start implies '0' <= #[trigger] s@.subrange(
                    start as int,
                    i + 1,
                )[j] <= '9' by {
                    if j < i - start {
                        assert(s@.subrange(start as int, i + 1)[j] == s@.subrange(start as int, i as int)[j]);
                    }
                }
            }
        }
        if next > 65535 {
            proof {
                lemma_digits_value_grows(digits, (i - start + 1) as int);
                assert(s@.subrange(start as int, i + 1) =~= digits.take(i - start + 1));
            }
            return None;
        }
        value = next;
        i = i + 1;
    }
    proof {
        assert(s@.subrange(start as int, i as int) =~= digits);
    }
    Some(value as u16)
}

proof fn lemma_digits_value_grows(s: Seq<char>, k: int)
    requires
        0 <= k <= s.len(),
    ensures
        digits_value(s.take(k)) <= digits_value(s) || !all_digits(s),
    decreases s.len() - k,
{
    if k < s.len() {
        lemma_digits_value_grows(s, k + 1);
        assert(s.take(k + 1).drop_last() =~= s.take(k));
        if all_digits(s) {
            assert('0' <= s[k] <= '9');
        }
    } else {
        assert(s.take(k) =~= s);
    }
}

/// The host and port of a known-host key `host:port`: split at the last `:`; `None` when
/// there is none or the port does not parse.
pub open spec fn host_key_target(key: Seq<char>) -> Option<(Seq<char>, u16)> {
    match crate::text::last_index_of(key, ':') {
        Some(i) => match u16_text(key.subrange(i + 1, key.len() as int)) {
            Some(p) => Some((key.subrange(0, i), p)),
            None => None,
        },
        None => None,
    }
}

/// The host and port of a known-host key, for removing it.
pub fn known_host_target(key: &str) -> (res: Option<(String, u16)>)
    ensures
        match host_key_target(key@) {
            Some((h, p)) => res matches Some((rh, rp)) && rh@ == h && rp == p,
            None => res is None,
        },
{
    let cs = to_chars(key);
    match rfind_char(cs.as_slice(), ':') {
        Some(i) => {
            assert(i < cs.len());
            let port_text = slice_chars(cs.as_slice(), i + 1, cs.len());
            match parse_u16(port_text.as_slice()) {
                Some(p) => Some((from_chars(slice_chars(cs.as_slice(), 0, i).as_slice()), p)),
                None => None,
            }
        },
        None => None,
    }
}

/// Every character of a decimal numeral is a digit, and the numeral reads back as its value.
proof fn lemma_decimal_reads_back(n: nat)
    ensures
        decimal(n).len() > 0,
        all_digits(decimal(n)),
        digits_value(decimal(n)) == n,
    decreases n,
{
    if n >= 10 {
        lemma_decimal_reads_back(n / 10);
        let d = decimal(n / 10);
        assert(decimal(n).drop_last() =~= d);
        assert(forall|i: int| 0 <= i < d.len() ==> decimal(n)[i] == d[i]);
    }
    let r = n % 10;
    assert((digit_char(r) as u32) - ('0' as u32) == r) by {
        assert(r < 10);
    }
    let s = decimal(n);
    assert(s.last() == digit_char(r));
    if n < 10 {
        assert(s.drop_last() =~= Seq::<char>::empty());
        assert(r == n);
    } else {
        assert(s.drop_last() =~= decimal(n / 10));
        assert(n == (n / 10) * 10 + r);
    }
    assert(digits_value(s) == digits_value(s.drop_last()) * 10 + ((s.last() as u32) - ('0' as u32)) as nat);
}

/// A known host's key text reads back to its host and port: `host:port` parses into the same
/// host (whatever colons it holds) and port.
pub proof fn lemma_known_host_key_reads_back(host: Seq<char>, port: u16)
    ensures
        host_key_target(known_host_key_spec(host, port)) == Some((host, port)),
{
    let key = known_host_key_spec(host, port);
    let d = decimal(port as nat);
    lemma_decimal_reads_back(port as nat);
    let i = host.len() as int;
    assert(key[i] == ':');
    assert forall|k: int| i < k < key.len() implies key[k] != ':' by {
        assert(key[k] == d[k - i - 1]);
    }
    crate::text::lemma_last_index_unique(key, ':', i);
    assert(key.subrange(i + 1, key.len() as int) =~= d);
    assert(key.subrange(0, i) =~= host);
    assert(d[0] != '+');
}

// ---------------------------------------------------------------------------
// Shortening text for display
// ---------------------------------------------------------------------------
/// The number of leading characters of `s` kept when it is cut to at most `max_bytes` bytes:
/// `k` characters fit and the next one does not (or none is left).
pub open spec fn kept_prefix(s: Seq<char>, max_bytes: nat, k: int) -> bool {
    &&& 0 <= k <= s.len()
    &&& utf8_len(s.take(k)) <= max_bytes
    &&& (k < s.len() ==> utf8_len(s.take(k + 1)) > max_bytes)
}

/// `s` shortened for display: when it is longer than `max_bytes` bytes, its longest prefix
/// that fits in `max_bytes` bytes and ends on a character boundary, followed by `...`.
pub fn truncate_display(s: &str, max_bytes: usize) -> (res: String)
    ensures
        utf8_len(s@) <= max_bytes ==> res@ == s@,
        utf8_len(s@) > max_bytes ==> exists|k: int|
            kept_prefix(s@, max_bytes as nat, k) && k < s@.len() && #[trigger] s@.take(k) + "..."@ == res@,
{
    let cs = to_chars(s);
    let mut total: usize = 0;
    let mut k: usize = 0;
    proof {
        assert(cs@.take(0) =~= Seq::<char>::empty());
    }
    while k < cs.len()
        invariant_except_break
            cs@ == s@,
            k <= cs@.len(),
            total == utf8_len(cs@.take(k as int)),
            total <= max_bytes,
        ensures
            cs@ == s@,
            kept_prefix(s@, max_bytes as nat, k as int),
            total == utf8_len(cs@.take(k as int)),
        decreases cs@.len() - k,
    {
        let u = cs[k] as u32;
        let w: usize = if u < 0x80 {
            1
        } else if u < 0x800 {
            2
        } else if u < 0x10000 {
            3
        } else {
            4
        };
        proof {
            lemma_utf8_len_take_step(s@, k as int);
        }
        if w > max_bytes - total {
            break;
        }
        total = total + w;
        k = k + 1;
    }
    if k == cs.len() {
        proof {
            assert(cs@.take(k as int) =~= s@);
        }
        return owned(s);
    }
    let mut v = slice_chars(cs.as_slice(), 0, k);
    crate::text::push_str(&mut v, "...");
    proof {
        assert(cs@.subrange(0, k as int) =~= s@.take(k as int));
        lemma_utf8_len_monotone(s@, k as int + 1, s@.len() as int);
        assert(s@.take(s@.len() as int) =~= s@);
    }
    from_chars(v.as_slice())
}

proof fn lemma_utf8_len_take_step(s: Seq<char>, k: int)
    requires
        0 <= k < s.len(),
    ensures
        utf8_len(s.take(k + 1)) == utf8_len(s.take(k)) + utf8_width(s[k]),
        utf8_width(s[k]) >= 1,
{
    assert(s.take(k + 1).drop_last() =~= s.take(k));
}

proof fn lemma_utf8_len_monotone(s: Seq<char>, a: int, b: int)
    requires
        0 <= a <= b <= s.len(),
    ensures
        utf8_len(s.take(a)) + (b - a) <= utf8_len(s.take(b)),
    decreases b - a,
{
    if a < b {
        lemma_utf8_len_monotone(s, a, b - 1);
        lemma_utf8_len_take_step(s, b - 1);
    }
}

/// The date part of a `date time` text: what precedes its first space.
pub open spec fn date_part(s: Seq<char>) -> Seq<char> {
    match first_index_of(s, ' ') {
        Some(i) => s.subrange(0, i),
        None => s,
    }
}

/// The date part of a `date time` text (`split(' ').next()`).
pub fn format_date(datetime: &str) -> (res: String)
    ensures
        res@ == date_part(datetime@),
{
    let cs = to_chars(datetime);
    match crate::text::find_char(cs.as_slice(), ' ') {
        Some(i) => from_chars(slice_chars(cs.as_slice(), 0, i).as_slice()),
        None => owned(datetime),
    }
}


// ---------------------------------------------------------------------------
// Server list
// ---------------------------------------------------------------------------
/// A server as the list shows it.
#[derive(Debug)]
pub struct ServerCard {
    pub id: String,
    pub name: String,
    pub host: String,
    pub port: u16,
    pub description: String,
    pub account: String,
    pub last_connected: String,
}

/// A group of the server list.
#[derive(Debug)]
pub struct ServerGroupView {
    pub name: String,
    pub servers: Vec<ServerCard>,
}

/// `c` shows server `s`: its description or `-`, its last connection or `never`.
pub open spec fn card_of(c: ServerCard, s: ServerData, never: Seq<char>) -> bool {
    &&& c.id@ == s.id@
    &&& c.name@ == s.label@
    &&& c.host@ == s.host@
    &&& c.port == s.port
    &&& c.description@ == match s.description {
        Some(d) => d@,
        None => "-"@,
    }
    &&& c.account@ == s.username@
    &&& c.last_connected@ == match s.last_connected_at {
        Some(t) => t@,
        None => never,
    }
}

/// `cards` show `servers`, in order.
pub open spec fn cards_of(cards: Seq<ServerCard>, servers: Seq<ServerData>, never: Seq<char>) -> bool {
    &&& cards.len() == servers.len()
    &&& forall|i: int| 0 <= i < cards.len() ==> card_of(#[trigger] cards[i], servers[i], never)
}

/// The server belongs to group `g` (`None`: to no group).
pub open spec fn in_server_group(g: Option<Seq<char>>) -> spec_fn(ServerData) -> bool {
    |s: ServerData| opt_view(s.group_id) == g
}

/// Server `s` as the list shows it; `never_connected` stands for a missing last connection.
pub fn server_card(s: &ServerData, never_connected: &str) -> (res: ServerCard)
    ensures
        card_of(res, *s, never_connected@),
{
    ServerCard {
        id: s.id.clone(),
        name: s.label.clone(),
        host: s.host.clone(),
        port: s.port,
        description: match &s.description {
            Some(d) => d.clone(),
            None => owned("-"),
        },
        account: s.username.clone(),
        last_connected: match &s.last_connected_at {
            Some(t) => t.clone(),
            None => owned(never_connected),
        },
    }
}

/// The cards of the servers of group `group` (`None`: of no group), in order.
pub fn cards_in_group(servers: &Vec<ServerData>, group: Option<&str>, never_connected: &str) -> (res: Vec<ServerCard>)
    ensures
        cards_of(res@, servers@.filter(in_server_group(opt_str_view(group))), never_connected@),
{
    let want: Option<String> = match group {
        Some(g) => Some(owned(g)),
        None => None,
    };
    let ghost p = in_server_group(opt_str_view(group));
    let mut res: Vec<ServerCard> = Vec::new();
    let mut i: usize = 0;
    proof {
        assert(servers@.take(0) =~= Seq::<ServerData>::empty());
        assert(servers@.take(0).filter(p) =~= Seq::<ServerData>::empty());
    }
    while i < servers.len()
        invariant
            i <= servers@.len(),
            p == in_server_group(opt_str_view(group)),
            opt_view(want) == opt_str_view(group),
            cards_of(res@, servers@.take(i as int).filter(p), never_connected@),
        decreases servers@.len() - i,
    {
        proof {
            crate::seqs::lemma_filter_take_step(servers@, p, i as int);
        }
        if crate::text::opt_str_eq(&servers[i].group_id, &want) {
            let ghost before = res@;
            let ghost f = servers@.take(i as int).filter(p);
            let c = server_card(&servers[i], never_connected);
            res.push(c);
            proof {
                assert forall|k: int| 0 <= k < res@.len() implies card_of(#[trigger] res@[k], f.push(servers@[i as int])[k], never_connected@) by {
                    if k < before.len() {
                        assert(res@[k] == before[k]);
                    }
                }
            }
        }
        i = i + 1;
    }
    proof {
        assert(servers@.take(i as int) =~= servers@);
    }
    res
}

/// The server list: one group per saved group, in order, with its servers; then, when some
/// servers belong to no group, a last group named `ungrouped` with them.
pub fn server_groups_view(config: &ServerConfig, never_connected: &str, ungrouped: &str) -> (res: Vec<ServerGroupView>)
    ensures
        ({
            let g = config.groups@;
            let loose = config.servers@.filter(in_server_group(None));
            &&& res@.len() == g.len() + if loose.len() > 0 { 1int } else { 0int }
            &&& forall|k: int| 0 <= k < g.len() ==> (#[trigger] res@[k]).name@ == g[k].name@ && cards_of(
                res@[k].servers@,
                config.servers@.filter(in_server_group(Some(g[k].id@))),
                never_connected@,
            )
            &&& loose.len() > 0 ==> res@[g.len() as int].name@ == ungrouped@ && cards_of(
                res@[g.len() as int].servers@,
                loose,
                never_connected@,
            )
        }),
{
    let mut res: Vec<ServerGroupView> = Vec::new();
    let mut k: usize = 0;
    while k < config.groups.len()
        invariant
            k <= config.groups@.len(),
            res@.len() == k,
            forall|j: int| 0 <= j < k ==> (#[trigger] res@[j]).name@ == config.groups@[j].name@ && cards_of(
                res@[j].servers@,
                config.servers@.filter(in_server_group(Some(config.groups@[j].id@))),
                never_connected@,
            ),
        decreases config.groups@.len() - k,
    {
        let g = &config.groups[k];
        let cards = cards_in_group(&config.servers, Some(g.id.as_str()), never_connected);
        res.push(ServerGroupView { name: g.name.clone(), servers: cards });
        k = k + 1;
    }
    let loose = cards_in_group(&config.servers, None, never_connected);
    if loose.len() > 0 {
        res.push(ServerGroupView { name: owned(ungrouped), servers: loose });
    }
    res
}

// ---------------------------------------------------------------------------
// Recent connections
// ---------------------------------------------------------------------------
/// Seconds since the Unix epoch of a `%Y-%m-%d %H:%M` text read as a date and time without
/// time zone, as chrono reads it; `None` when it does not parse.
pub uninterp spec fn naive_seconds_of(text: Seq<char>) -> Option<i64>;

/// Reads a `%Y-%m-%d %H:%M` text as seconds since the Unix epoch
/// (`chrono::NaiveDateTime::parse_from_str`, then `and_utc().timestamp()`). Stated: the result
/// depends on the text alone.
#[verifier::external_body]
fn parse_minute_time(text: &str) -> (res: Option<i64>)
    ensures
        res == naive_seconds_of(text@),
{
    chrono::NaiveDateTime::parse_from_str(text, "%Y-%m-%d %H:%M").ok().map(|dt| dt.and_utc().timestamp())
}

/// The labels of relative times, in the interface language.
#[derive(Debug)]
pub struct HistoryLabels {
    pub just_now: String,
    pub minutes_ago: String,
    pub hours_ago: String,
    pub days_ago: String,
}

/// A recent connection: the server's name and how long ago.
#[derive(Debug)]
pub struct HistoryItem {
    pub name: String,
    pub time: String,
}

/// How long ago, for `elapsed` seconds: just now under a minute, then whole minutes under an
/// hour, whole hours under a day, else whole days.
pub open spec fn relative_time_spec(elapsed: int, l: HistoryLabels) -> Seq<char> {
    if elapsed < 60 {
        l.just_now@
    } else if elapsed / 60 < 60 {
        decimal((elapsed / 60) as nat) + l.minutes_ago@
    } else if elapsed / 3600 < 24 {
        decimal((elapsed / 3600) as nat) + l.hours_ago@
    } else {
        decimal((elapsed / 86400) as nat) + l.days_ago@
    }
}

/// How long ago, for `elapsed` seconds.
pub fn relative_time(elapsed: i128, labels: &HistoryLabels) -> (res: String)
    requires
        elapsed < 0x1_0000_0000_0000_0000,
    ensures
        res@ == relative_time_spec(elapsed as int, *labels),
{
    if elapsed < 60 {
        labels.just_now.clone()
    } else if elapsed / 60 < 60 {
        let d = decimal_string((elapsed / 60) as u64);
        concat2(d.as_str(), labels.minutes_ago.as_str())
    } else if elapsed / 3600 < 24 {
        let d = decimal_string((elapsed / 3600) as u64);
        concat2(d.as_str(), labels.hours_ago.as_str())
    } else {
        let d = decimal_string((elapsed / 86400) as u64);
        concat2(d.as_str(), labels.days_ago.as_str())
    }
}

/// The servers with a readable last connection, as `(name, seconds)`, in list order.
pub open spec fn dated(servers: Seq<ServerData>) -> Seq<(Seq<char>, i64)>
    decreases servers.len(),
{
    if servers.len() == 0 {
        Seq::empty()
    } else {
        let prev = dated(servers.drop_last());
        let s = servers.last();
        match s.last_connected_at {
            Some(t) => match naive_seconds_of(t@) {
                Some(x) => prev.push((s.label@, x)),
                None => prev,
            },
            None => prev,
        }
    }
}

/// `x` placed into `sorted` (newest first) after every entry at least as recent.
pub open spec fn insert_newest_first(sorted: Seq<(Seq<char>, i64)>, x: (Seq<char>, i64)) -> Seq<(Seq<char>, i64)>
    decreases sorted.len(),
{
    if sorted.len() == 0 {
        seq![x]
    } else if sorted.last().1 >= x.1 {
        sorted.push(x)
    } else {
        insert_newest_first(sorted.drop_last(), x).push(sorted.last())
    }
}

/// `s` sorted newest first, entries equally recent keeping their order (a stable sort).
pub open spec fn newest_first(s: Seq<(Seq<char>, i64)>) -> Seq<(Seq<char>, i64)>
    decreases s.len(),
{
    if s.len() == 0 {
        Seq::empty()
    } else {
        insert_newest_first(newest_first(s.drop_last()), s.last())
    }
}

/// The most recent connections shown: at most ten.
pub const HISTORY_LIMIT: usize = 10;

/// The texts of `(name, seconds)` pairs.
pub open spec fn dated_view(v: Seq<(String, i64)>) -> Seq<(Seq<char>, i64)> {
    v.map_values(|t: (String, i64)| (t.0@, t.1))
}

proof fn lemma_insert_at(sorted: Seq<(Seq<char>, i64)>, x: (Seq<char>, i64), j: int)
    requires
        0 <= j <= sorted.len(),
        forall|k: int| j <= k < sorted.len() ==> (#[trigger] sorted[k]).1 < x.1,
        j > 0 ==> sorted[j - 1].1 >= x.1,
    ensures
        insert_newest_first(sorted, x) == sorted.take(j).push(x) + sorted.skip(j),
    decreases sorted.len(),
{
    if sorted.len() == 0 {
        assert(sorted.take(j).push(x) + sorted.skip(j) =~= seq![x]);
    } else if j == sorted.len() {
        assert(sorted.take(j) =~= sorted);
        assert(sorted.take(j).push(x) + sorted.skip(j) =~= sorted.push(x));
    } else {
        let init = sorted.drop_last();
        lemma_insert_at(init, x, j);
        assert(init.take(j).push(x) + init.skip(j) + seq![sorted.last()] =~= sorted.take(j).push(x)
            + sorted.skip(j));
        assert((init.take(j).push(x) + init.skip(j)).push(sorted.last()) =~= init.take(j).push(x)
            + init.skip(j) + seq![sorted.last()]);
    }
}

fn insert_sorted(v: &mut Vec<(String, i64)>, x: (String, i64))
    ensures
        dated_view(final(v)@) == insert_newest_first(dated_view(old(v)@), (x.0@, x.1)),
{
    let ghost sv = dated_view(v@);
    let mut j = v.len();
    while j > 0 && v[j - 1].1 < x.1
        invariant
            j <= v@.len(),
            sv == dated_view(v@),
            forall|k: int| j <= k < v@.len() ==> (#[trigger] v@[k]).1 < x.1,
        decreases j,
    {
        j = j - 1;
    }
    proof {
        assert forall|k: int| j <= k < sv.len() implies (#[trigger] sv[k]).1 < x.1 by {
            assert(sv[k] == (v@[k].0@, v@[k].1));
        }
        if j > 0 {
            assert(sv[j - 1] == (v@[j - 1].0@, v@[j - 1].1));
        }
        lemma_insert_at(sv, (x.0@, x.1), j as int);
    }
    let ghost x_view = (x.0@, x.1);
    v.insert(j, x);
    proof {
        assert(dated_view(v@) =~= sv.take(j as int).push(x_view) + sv.skip(j as int));
    }
}

/// `items` are the recent connections to show at time `now` (seconds): the servers with a
/// readable last connection, newest first, at most `HISTORY_LIMIT`, with how long ago.
pub open spec fn history_shows(items: Seq<HistoryItem>, servers: Seq<ServerData>, now: i64, labels: HistoryLabels) -> bool {
    let sorted = newest_first(dated(servers));
    &&& items.len() == if sorted.len() < HISTORY_LIMIT { sorted.len() as int } else { HISTORY_LIMIT as int }
    &&& forall|k: int| 0 <= k < items.len() ==> (#[trigger] items[k]).name@ == sorted[k].0 && items[k].time@
        == relative_time_spec(now - sorted[k].1, labels)
}

/// The recent connections to show at time `now` (seconds): the servers with a readable last
/// connection, newest first, at most `HISTORY_LIMIT`, with how long ago.
pub fn history_items(servers: &Vec<ServerData>, now: i64, labels: &HistoryLabels) -> (res: Vec<HistoryItem>)
    ensures
        history_shows(res@, servers@, now, *labels),
{
    let mut sorted: Vec<(String, i64)> = Vec::new();
    let mut i: usize = 0;
    proof {
        assert(servers@.take(0) =~= Seq::<ServerData>::empty());
        assert(dated_view(sorted@) =~= Seq::<(Seq<char>, i64)>::empty());
    }
    while i < servers.len()
        invariant
            i <= servers@.len(),
            dated_view(sorted@) == newest_first(dated(servers@.take(i as int))),
        decreases servers@.len() - i,
    {
        proof {
            assert(servers@.take(i + 1).drop_last() =~= servers@.take(i as int));
        }
        match &servers[i].last_connected_at {
            Some(t) => match parse_minute_time(t.as_str()) {
                Some(x) => {
                    proof {
                        let d = dated(servers@.take(i as int));
                        assert(d.push((servers@[i as int].label@, x)).drop_last() =~= d);
                    }
                    insert_sorted(&mut sorted, (servers[i].label.clone(), x));
                },
                None => {},
            },
            None => {},
        }
        i = i + 1;
    }
    proof {
        assert(servers@.take(i as int) =~= servers@);
    }
    let ghost sv = dated_view(sorted@);
    let mut res: Vec<HistoryItem> = Vec::new();
    let mut k: usize = 0;
    while k < sorted.len() && k < HISTORY_LIMIT
        invariant
            sv == dated_view(sorted@),
            sv == newest_first(dated(servers@)),
            k <= sorted@.len(),
            k <= HISTORY_LIMIT,
            res@.len() == k,
            forall|j: int| 0 <= j < k ==> (#[trigger] res@[j]).name@ == sv[j].0 && res@[j].time@
                == relative_time_spec(now - sv[j].1, *labels),
        decreases sorted@.len() - k,
    {
        let elapsed = (now as i128) - (sorted[k].1 as i128);
        let time = relative_time(elapsed, labels);
        proof {
            assert(sv[k as int] == (sorted@[k as int].0@, sorted@[k as int].1));
        }
        res.push(HistoryItem { name: sorted[k].0.clone(), time });
        k = k + 1;
    }
    res
}

/// The recent connections to show now.
pub fn recent_history(servers: &Vec<ServerData>, labels: &HistoryLabels) -> (res: Vec<HistoryItem>)
    ensures
        exists|now: i64| #[trigger] history_shows(res@, servers@, now, *labels),
{
    let now = crate::clock::local_now_seconds();
    history_items(servers, now, labels)
}


// ---------------------------------------------------------------------------
// Menu
// ---------------------------------------------------------------------------
/// The sections of the home page's menu.
#[derive(Clone, Copy, Debug, PartialEq, Eq, Structural)]
pub enum MenuType {
    Hosts,
    Monitor,
    Snippets,
    KnownHosts,
}

impl MenuType {
    /// The section's identifier.
    pub fn id(&self) -> (res: &'static str)
        ensures
            res@ == match *self {
                MenuType::Hosts => "hosts"@,
                MenuType::Monitor => "monitor"@,
                MenuType::Snippets => "snippets"@,
                MenuType::KnownHosts => "known_hosts"@,
            },
    {
        proof {
            reveal_strlit("hosts");
            reveal_strlit("monitor");
            reveal_strlit("snippets");
            reveal_strlit("known_hosts");
        }
        match self {
            MenuType::Hosts => "hosts",
            MenuType::Monitor => "monitor",
            MenuType::Snippets => "snippets",
            MenuType::KnownHosts => "known_hosts",
        }
    }

    /// The translation key of the section's label.
    pub fn label_key(&self) -> (res: &'static str)
        ensures
            res@ == match *self {
                MenuType::Hosts => "sidebar.hosts"@,
                MenuType::Monitor => "sidebar.monitor"@,
                MenuType::Snippets => "sidebar.snippets"@,
                MenuType::KnownHosts => "sidebar.known_hosts"@,
            },
    {
        proof {
            reveal_strlit("sidebar.hosts");
            reveal_strlit("sidebar.monitor");
            reveal_strlit("sidebar.snippets");
            reveal_strlit("sidebar.known_hosts");
        }
        match self {
            MenuType::Hosts => "sidebar.hosts",
            MenuType::Monitor => "sidebar.monitor",
            MenuType::Snippets => "sidebar.snippets",
            MenuType::KnownHosts => "sidebar.known_hosts",
        }
    }
}

/// The menu's state: the section shown.
#[derive(Clone, Copy, Debug)]
pub struct SidebarState {
    pub selected_menu: MenuType,
}

} // verus!
