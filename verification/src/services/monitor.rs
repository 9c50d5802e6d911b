//! Resource monitoring of a session's host.
//!
//! One long-lived remote script prints a tagged JSON line per sample. This module holds what
//! decides around it: the sampling schedule, the script text, how the received bytes are cut
//! into lines, where each line goes, and when a broken stream is opened again.
use vstd::prelude::*;
use crate::utf8_stream::{decode_available, left_over, ready_part, stream_text};
use vstd::utf8::valid_utf8;
use crate::text::{
    decimal, decimal_string, first_index_of, find_char, from_chars, lemma_first_index_unique,
    absent_before, owned, replace_all, replaced, slice_chars, str_eq, to_chars, trim, trim_spec,
    utf8_len, utf8_len_exceeds,
};

verus! {

/// A monitoring sample, or the end of monitoring. The payloads are the sample's parsed form.
#[derive(Clone, Debug)]
pub enum MonitorEvent<S, L, N, D> {
    /// Static facts about the host (once per stream).
    SystemInfo(S),
    /// CPU, memory and process load.
    LoadInfo(L),
    /// Network interfaces and TCP counters.
    NetworkInfo(N),
    /// File systems.
    DiskInfo(D),
    /// Monitoring stopped for good.
    Error(String),
}

/// Sampling intervals, in milliseconds.
#[derive(Clone, Copy, Debug)]
pub struct MonitorSettings {
    pub load_interval_ms: u64,
    pub network_interval_ms: u64,
    pub disk_interval_ms: u64,
}

impl Default for MonitorSettings {
    fn default() -> (res: Self)
        ensures
            res.load_interval_ms == 2000,
            res.network_interval_ms == 2000,
            res.disk_interval_ms == 10000,
    {
        MonitorSettings { load_interval_ms: 2000, network_interval_ms: 2000, disk_interval_ms: 10000 }
    }
}

// ---------------------------------------------------------------------------
// Schedule and script
// ---------------------------------------------------------------------------
/// The larger of `a` and `b`.
pub open spec fn max_nat(a: nat, b: nat) -> nat {
    if a >= b {
        a
    } else {
        b
    }
}

/// Seconds between two samples: the load interval in whole seconds, at least one.
pub open spec fn interval_secs_spec(s: MonitorSettings) -> nat {
    max_nat((s.load_interval_ms / 1000) as nat, 1)
}

/// A disk sample is taken every this many rounds: the disk interval over the load interval
/// (taken as at least 1 ms), at least one.
pub open spec fn disk_every_spec(s: MonitorSettings) -> nat {
    max_nat((s.disk_interval_ms as nat) / max_nat(s.load_interval_ms as nat, 1), 1)
}

/// The sampling schedule of `settings`: `(seconds between samples, rounds per disk sample)`.
pub fn sampling_schedule(settings: &MonitorSettings) -> (res: (u64, u64))
    ensures
        res.0 == interval_secs_spec(*settings),
        res.1 == disk_every_spec(*settings),
        res.0 >= 1,
        res.1 >= 1,
{
    let secs = settings.load_interval_ms / 1000;
    let secs = if secs >= 1 {
        secs
    } else {
        1
    };
    let load = if settings.load_interval_ms >= 1 {
        settings.load_interval_ms
    } else {
        1
    };
    let every = settings.disk_interval_ms / load;
    let every = if every >= 1 {
        every
    } else {
        1
    };
    (secs, every)
}

/// The sampling script; `__INTERVAL__` and `__DISK_EVERY__` stand for the schedule.
pub const STREAM_SCRIPT_TEMPLATE: &'static str = r#"
INTERVAL=__INTERVAL__
DISK_EVERY=__DISK_EVERY__

have() { command -v "$1" >/dev/null 2>&1; }

emit_system() {
    hostname=$(hostname 2>/dev/null || echo unknown)
    if [ -f /etc/os-release ]; then
        os=$(. /etc/os-release 2>/dev/null && printf '%s' "${PRETTY_NAME:-${NAME} ${VERSION_ID}}")
        [ -z "$os" ] && os=Linux
    else
        os=$(uname -s 2>/dev/null || echo unknown)
    fi
    kernel=$(uname -r 2>/dev/null || echo "")
    if [ -f /proc/uptime ]; then
        uptime_seconds=$(awk '{print int($1)}' /proc/uptime 2>/dev/null || echo 0)
    else
        uptime_seconds=0
    fi

    if have lscpu; then
        lscpu_out=$(lscpu 2>/dev/null)
        # the first "Model name:" only ("BIOS Model name:" would add a second line)
        cpu_model=$(printf '%s\n' "$lscpu_out" | awk -F: '/^Model name:/{sub(/^[ \t]*/,"",$2); print $2; exit}')
        cpsk=$(printf '%s\n' "$lscpu_out" | awk -F: '/^Core\(s\) per socket:/{gsub(/[ \t]/,"",$2); print $2; exit}')
        sockets=$(printf '%s\n' "$lscpu_out" | awk -F: '/^Socket\(s\):/{gsub(/[ \t]/,"",$2); print $2; exit}')
        case "$cpsk" in ''|*[!0-9]*) cpsk=1 ;; esac
        case "$sockets" in ''|*[!0-9]*) sockets=1 ;; esac
        cores_physical=$((cpsk * sockets))
        cores_logical=$(nproc 2>/dev/null || echo 1)
    else
        cpu_model=$(sysctl -n machdep.cpu.brand_string 2>/dev/null || echo Unknown)
        cores_physical=$(sysctl -n hw.physicalcpu 2>/dev/null || echo 1)
        cores_logical=$(sysctl -n hw.logicalcpu 2>/dev/null || echo 1)
    fi
    architecture=$(uname -m 2>/dev/null || echo unknown)

    if [ -f /proc/meminfo ]; then
        mem_kb=$(awk '/^MemTotal:/{print $2}' /proc/meminfo 2>/dev/null)
        swap_kb=$(awk '/^SwapTotal:/{print $2}' /proc/meminfo 2>/dev/null)
        case "$mem_kb" in ''|*[!0-9]*) mem_kb=0 ;; esac
        case "$swap_kb" in ''|*[!0-9]*) swap_kb=0 ;; esac
        mem_total=$((mem_kb * 1024))
        swap_total=$((swap_kb * 1024))
    else
        mem_total=$(sysctl -n hw.memsize 2>/dev/null || echo 0)
        swap_total=0
    fi

    # strip quotes, backslashes and line breaks from free text so the JSON stays on one line
    hostname=$(printf '%s' "$hostname" | tr -d '"\\\n\r')
    os=$(printf '%s' "$os" | tr -d '"\\\n\r')
    kernel=$(printf '%s' "$kernel" | tr -d '"\\\n\r')
    cpu_model=$(printf '%s' "$cpu_model" | tr -d '"\\\n\r')
    architecture=$(printf '%s' "$architecture" | tr -d '"\\\n\r')
    [ -z "$cpu_model" ] && cpu_model=Unknown
    [ -z "$cores_physical" ] && cores_physical=1
    [ -z "$cores_logical" ] && cores_logical=1
    [ -z "$mem_total" ] && mem_total=0
    [ -z "$swap_total" ] && swap_total=0
    [ -z "$uptime_seconds" ] && uptime_seconds=0

    printf 'SYS {"host":{"hostname":"%s","os":"%s","kernel":"%s","uptime_seconds":%s},"cpu":{"model":"%s","cores_physical":%s,"cores_logical":%s,"architecture":"%s"},"memory":{"total_bytes":%s,"swap_total_bytes":%s}}\n' \
        "$hostname" "$os" "$kernel" "$uptime_seconds" "$cpu_model" "$cores_physical" "$cores_logical" "$architecture" "$mem_total" "$swap_total"
}

prev_total=0
prev_idle=0
read_cpu() {
    if [ -r /proc/stat ]; then
        set -- $(head -n1 /proc/stat 2>/dev/null)
        u=${2:-0}; n=${3:-0}; s=${4:-0}; i=${5:-0}; io=${6:-0}; ir=${7:-0}; si=${8:-0}
        cur_idle=$((i + io))
        cur_total=$((u + n + s + i + io + ir + si))
    else
        cur_idle=0
        cur_total=0
    fi
}

emit_load() {
    timestamp=$(date +%s 2>/dev/null || echo 0)

    read_cpu
    d_total=$((cur_total - prev_total))
    d_idle=$((cur_idle - prev_idle))
    if [ "$d_total" -gt 0 ] 2>/dev/null; then
        cpu_usage=$(awk "BEGIN{u=($d_total-$d_idle)/$d_total*100; if(u<0)u=0; if(u>100)u=100; printf \"%.1f\", u}")
    else
        cpu_usage="0.0"
    fi
    prev_total=$cur_total
    prev_idle=$cur_idle
    [ -z "$cpu_usage" ] && cpu_usage="0.0"

    if [ -r /proc/loadavg ]; then
        load_avg=$(awk '{print $1","$2","$3}' /proc/loadavg 2>/dev/null)
    else
        load_avg=$(sysctl -n vm.loadavg 2>/dev/null | awk '{print $2","$3","$4}')
    fi
    [ -z "$load_avg" ] && load_avg="0,0,0"

    if have free; then
        mem_line=$(free -b 2>/dev/null | awk '/^Mem:/{print}')
        mem_used=$(echo "$mem_line" | awk '{print $3}')
        mem_available=$(echo "$mem_line" | awk '{print $7}')
        [ -z "$mem_available" ] && mem_available=$(echo "$mem_line" | awk '{print $4}')
        swap_used=$(free -b 2>/dev/null | awk '/^Swap:/{print $3}')
    else
        mem_used=0; mem_available=0; swap_used=0
    fi
    buf_kb=$(awk '/^Buffers:/{print $2}' /proc/meminfo 2>/dev/null)
    cache_kb=$(awk '/^Cached:/{print $2}' /proc/meminfo 2>/dev/null)
    case "$buf_kb" in ''|*[!0-9]*) buf_kb=0 ;; esac
    case "$cache_kb" in ''|*[!0-9]*) cache_kb=0 ;; esac
    mem_buffers=$((buf_kb * 1024))
    mem_cached=$((cache_kb * 1024))
    [ -z "$mem_used" ] && mem_used=0
    [ -z "$mem_available" ] && mem_available=0
    [ -z "$swap_used" ] && swap_used=0

    top_cpu=$(ps aux 2>/dev/null | tail -n +2 | sort -k3 -rn | head -n5 | awk '{gsub(/[\\"]/,"",$11); printf "{\"pid\":%s,\"name\":\"%s\",\"cpu_percent\":%s,\"memory_percent\":%s,\"user\":\"%s\"},", $2, $11, $3, $4, $1}' | sed 's/,$//')
    top_mem=$(ps aux 2>/dev/null | tail -n +2 | sort -k4 -rn | head -n5 | awk '{gsub(/[\\"]/,"",$11); printf "{\"pid\":%s,\"name\":\"%s\",\"cpu_percent\":%s,\"memory_percent\":%s,\"user\":\"%s\"},", $2, $11, $3, $4, $1}' | sed 's/,$//')

    printf 'LOAD {"timestamp":%s,"cpu":{"usage_percent":%s,"load_average":[%s]},"memory":{"used_bytes":%s,"available_bytes":%s,"buffers_bytes":%s,"cached_bytes":%s,"swap_used_bytes":%s},"top_cpu_processes":[%s],"top_memory_processes":[%s]}\n' \
        "$timestamp" "$cpu_usage" "$load_avg" "$mem_used" "$mem_available" "$mem_buffers" "$mem_cached" "$swap_used" "$top_cpu" "$top_mem"
}

emit_network() {
    timestamp=$(date +%s 2>/dev/null || echo 0)

    if have ss; then
        tcp_stats=$(ss -t -a 2>/dev/null)
    else
        tcp_stats=$(netstat -ant 2>/dev/null)
    fi
    tcp_total=$(printf '%s\n' "$tcp_stats" | grep -c 'tcp' 2>/dev/null | tr -d '\n')
    tcp_established=$(printf '%s\n' "$tcp_stats" | grep -c 'ESTAB' 2>/dev/null | tr -d '\n')
    tcp_listen=$(printf '%s\n' "$tcp_stats" | grep -c 'LISTEN' 2>/dev/null | tr -d '\n')
    tcp_time_wait=$(printf '%s\n' "$tcp_stats" | grep -c 'TIME-WAIT\|TIME_WAIT' 2>/dev/null | tr -d '\n')
    [ -z "$tcp_total" ] && tcp_total=0
    [ -z "$tcp_established" ] && tcp_established=0
    [ -z "$tcp_listen" ] && tcp_listen=0
    [ -z "$tcp_time_wait" ] && tcp_time_wait=0

    interfaces=""
    if [ -d /sys/class/net ]; then
        for iface in $(ls /sys/class/net 2>/dev/null); do
            case "$iface" in
                veth*|docker*|br-*|virbr*) continue ;;
            esac
            mac=$(cat /sys/class/net/$iface/address 2>/dev/null || echo "00:00:00:00:00:00")
            rx_bytes=$(cat /sys/class/net/$iface/statistics/rx_bytes 2>/dev/null || echo 0)
            tx_bytes=$(cat /sys/class/net/$iface/statistics/tx_bytes 2>/dev/null || echo 0)
            rx_packets=$(cat /sys/class/net/$iface/statistics/rx_packets 2>/dev/null || echo 0)
            tx_packets=$(cat /sys/class/net/$iface/statistics/tx_packets 2>/dev/null || echo 0)
            rx_errors=$(cat /sys/class/net/$iface/statistics/rx_errors 2>/dev/null || echo 0)
            tx_errors=$(cat /sys/class/net/$iface/statistics/tx_errors 2>/dev/null || echo 0)
            is_up=$(cat /sys/class/net/$iface/operstate 2>/dev/null)
            [ "$is_up" = "up" ] && is_up="true" || is_up="false"

            if have ip; then
                ips=$(ip -o addr show $iface 2>/dev/null | awk '{print $4}' | cut -d/ -f1 | tr '\n' ',' | sed 's/,$//')
            else
                ips=$(ifconfig $iface 2>/dev/null | grep 'inet ' | awk '{print $2}' | tr '\n' ',' | sed 's/,$//')
            fi
            ips_json=$(echo "$ips" | awk -F, '{for(i=1;i<=NF;i++) if($i!="") printf "\"%s\"%s", $i, (i<NF?",":"")}')

            interfaces="$interfaces{\"name\":\"$iface\",\"mac_address\":\"$mac\",\"ip_addresses\":[$ips_json],\"rx_bytes\":$rx_bytes,\"tx_bytes\":$tx_bytes,\"rx_packets\":$rx_packets,\"tx_packets\":$tx_packets,\"rx_errors\":$rx_errors,\"tx_errors\":$tx_errors,\"is_up\":$is_up},"
        done
    fi
    interfaces=$(printf '%s' "$interfaces" | sed 's/,$//')

    printf 'NET {"timestamp":%s,"global":{"tcp_connections":%s,"tcp_established":%s,"tcp_listen":%s,"tcp_time_wait":%s},"interfaces":[%s]}\n' \
        "$timestamp" "$tcp_total" "$tcp_established" "$tcp_listen" "$tcp_time_wait" "$interfaces"
}

emit_disk() {
    timestamp=$(date +%s 2>/dev/null || echo 0)

    disks=""
    if have df; then
        disks=$(df -B1 -T 2>/dev/null | grep -vE '^Filesystem|tmpfs|devtmpfs|squashfs|overlay|none' | while read -r device fstype total used available pcent mount rest; do
            [ -z "$device" ] && continue
            [ -z "$total" ] && continue
            [ "$total" = "0" ] && continue
            if [ "$total" -gt 0 ] 2>/dev/null; then
                usage_percent=$(awk "BEGIN{printf \"%.1f\", $used / $total * 100}")
            else
                usage_percent="0.0"
            fi
            inode_info=$(df -i "$mount" 2>/dev/null | tail -1)
            inodes_total=$(echo "$inode_info" | awk '{print $2}')
            inodes_used=$(echo "$inode_info" | awk '{print $3}')
            inodes_available=$(echo "$inode_info" | awk '{print $4}')
            echo "$inodes_total" | grep -qE '^[0-9]+$' || inodes_total=0
            echo "$inodes_used" | grep -qE '^[0-9]+$' || inodes_used=0
            echo "$inodes_available" | grep -qE '^[0-9]+$' || inodes_available=0
            printf '{"device":"%s","mount_point":"%s","fs_type":"%s","total_bytes":%s,"used_bytes":%s,"available_bytes":%s,"usage_percent":%s,"inodes_total":%s,"inodes_used":%s,"inodes_available":%s},' \
                "$device" "$mount" "$fstype" "$total" "$used" "$available" "$usage_percent" "$inodes_total" "$inodes_used" "$inodes_available"
        done)
        disks=$(printf '%s' "$disks" | sed 's/,$//')
    fi

    printf 'DISK {"timestamp":%s,"disks":[%s]}\n' "$timestamp" "$disks"
}

emit_system
read_cpu
prev_total=$cur_total
prev_idle=$cur_idle

count=0
while :; do
    emit_load
    emit_network
    if [ $((count % DISK_EVERY)) -eq 0 ]; then
        emit_disk
    fi
    count=$((count + 1))
    sleep $INTERVAL
done
"#;

/// The sampling script for the given schedule.
pub open spec fn stream_script_spec(interval_secs: nat, disk_every: nat) -> Seq<char> {
    replaced(
        replaced(STREAM_SCRIPT_TEMPLATE@, "__INTERVAL__"@, decimal(interval_secs)),
        "__DISK_EVERY__"@,
        decimal(disk_every),
    )
}

/// The sampling script, with the schedule filled in.
pub fn build_stream_script(interval_secs: u64, disk_every: u64) -> (res: String)
    ensures
        res@ == stream_script_spec(interval_secs as nat, disk_every as nat),
{
    proof {
        reveal_strlit("__INTERVAL__");
        reveal_strlit("__DISK_EVERY__");
    }
    let step = replace_all(STREAM_SCRIPT_TEMPLATE, "__INTERVAL__", decimal_string(interval_secs).as_str());
    replace_all(step.as_str(), "__DISK_EVERY__", decimal_string(disk_every).as_str())
}


// ---------------------------------------------------------------------------
// Retrying a broken stream
// ---------------------------------------------------------------------------
/// Failed or ended streams tolerated in a row before monitoring gives up.
pub const MAX_RETRIES: u32 = 10;

/// The first wait before opening the stream again, in milliseconds.
pub const INITIAL_BACKOFF_MS: u64 = 1000;

/// The longest wait, in milliseconds.
pub const MAX_BACKOFF_MS: u64 = 30000;

/// What the monitoring loop learned since its last action.
#[derive(Clone, Copy, Debug, PartialEq, Eq, Structural)]
pub enum MonitorSignal {
    /// Top of the loop: whether a stop was requested and whether the session is alive.
    Check { stop_requested: bool, alive: bool },
    /// The stream could not be opened.
    OpenFailed,
    /// The stream loop returned because a stop was requested.
    StreamStopped,
    /// The stream ended by itself; `got_data`: it delivered something.
    StreamEnded { got_data: bool, alive: bool, stop_requested: bool },
    /// The wait ended (or a stop interrupted it).
    WaitOver { stop_requested: bool, alive: bool },
}

/// What the monitoring loop does next.
#[derive(Clone, Copy, Debug, PartialEq, Eq, Structural)]
pub enum MonitorAction {
    /// Open the sampling stream and read it.
    OpenStream,
    /// Wait this many milliseconds (a stop may cut the wait short).
    Wait(u64),
    /// Report that monitoring stopped after too many retries, and end.
    GiveUp,
    /// End quietly.
    Finish,
}

/// The retry policy of the sampling stream: how many tries failed in a row, and the next wait.
#[derive(Debug)]
pub struct StreamRetry {
    retries: u32,
    backoff_ms: u64,
}

/// The policy's state: `(failed tries in a row, next wait in ms)`.
pub struct RetryView {
    pub retries: nat,
    pub backoff_ms: nat,
}

/// The wait after `b`: twice as long, at most `MAX_BACKOFF_MS`.
pub open spec fn doubled_backoff(b: nat) -> nat {
    if 2 * b <= MAX_BACKOFF_MS {
        2 * b
    } else {
        MAX_BACKOFF_MS as nat
    }
}

/// One more failed try; past `MAX_RETRIES` the count stays put (monitoring has given up).
pub open spec fn failed_try(v: RetryView) -> (RetryView, MonitorAction) {
    let r = if v.retries <= MAX_RETRIES { v.retries + 1 } else { v.retries };
    if r > MAX_RETRIES {
        (RetryView { retries: r, backoff_ms: v.backoff_ms }, MonitorAction::GiveUp)
    } else {
        (RetryView { retries: r, backoff_ms: v.backoff_ms }, MonitorAction::Wait(v.backoff_ms as u64))
    }
}

/// The policy's answer to `signal`.
pub open spec fn monitor_step_spec(v: RetryView, signal: MonitorSignal) -> (RetryView, MonitorAction) {
    match signal {
        MonitorSignal::Check { stop_requested, alive } => if stop_requested || !alive {
            (v, MonitorAction::Finish)
        } else {
            (v, MonitorAction::OpenStream)
        },
        MonitorSignal::OpenFailed => failed_try(v),
        MonitorSignal::StreamStopped => (v, MonitorAction::Finish),
        MonitorSignal::StreamEnded { got_data, alive, stop_requested } => {
            let w = if got_data {
                RetryView { retries: 0, backoff_ms: INITIAL_BACKOFF_MS as nat }
            } else {
                v
            };
            if !alive || stop_requested {
                (w, MonitorAction::Finish)
            } else {
                failed_try(w)
            }
        },
        MonitorSignal::WaitOver { stop_requested, alive } => if stop_requested {
            (v, MonitorAction::Finish)
        } else {
            let w = RetryView { retries: v.retries, backoff_ms: doubled_backoff(v.backoff_ms) };
            if !alive {
                (w, MonitorAction::Finish)
            } else {
                (w, MonitorAction::OpenStream)
            }
        },
    }
}

impl View for StreamRetry {
    type V = RetryView;

    closed spec fn view(&self) -> RetryView {
        RetryView { retries: self.retries as nat, backoff_ms: self.backoff_ms as nat }
    }
}

/// Every wait lies between the first wait and the longest one; the count of failed tries never
/// passes the limit by more than the one try that ends monitoring.
pub open spec fn retry_wf(v: RetryView) -> bool {
    &&& INITIAL_BACKOFF_MS <= v.backoff_ms <= MAX_BACKOFF_MS
    &&& v.retries <= MAX_RETRIES + 1
}

impl StreamRetry {
    #[verifier::type_invariant]
    spec fn inv(self) -> bool {
        retry_wf(self@)
    }

    /// A fresh policy: no failed try, the first wait next.
    pub fn new() -> (res: Self)
        ensures
            res@ == (RetryView { retries: 0, backoff_ms: INITIAL_BACKOFF_MS as nat }),
    {
        StreamRetry { retries: 0, backoff_ms: INITIAL_BACKOFF_MS }
    }

    /// Failed tries in a row.
    pub fn retries(&self) -> (res: u32)
        ensures
            res == self@.retries,
    {
        self.retries
    }

    /// The next wait, in milliseconds.
    pub fn backoff_ms(&self) -> (res: u64)
        ensures
            res == self@.backoff_ms,
    {
        self.backoff_ms
    }

    fn fail(&mut self) -> (res: MonitorAction)
        ensures
            (final(self)@, res) == failed_try(old(self)@),
    {
        proof {
            use_type_invariant(&*self);
        }
        if self.retries <= MAX_RETRIES {
            self.retries = self.retries + 1;
        }
        if self.retries > MAX_RETRIES {
            MonitorAction::GiveUp
        } else {
            MonitorAction::Wait(self.backoff_ms)
        }
    }

    /// Answers `signal` with the loop's next action.
    pub fn step(&mut self, signal: MonitorSignal) -> (res: MonitorAction)
        ensures
            (final(self)@, res) == monitor_step_spec(old(self)@, signal),
            res == MonitorAction::OpenStream ==> (signal == MonitorSignal::Check {
                stop_requested: false,
                alive: true,
            } || signal == MonitorSignal::WaitOver { stop_requested: false, alive: true }),
    {
        proof {
            use_type_invariant(&*self);
            lemma_dead_session_ends_monitoring(old(self)@, signal);
        }
        match signal {
            MonitorSignal::Check { stop_requested, alive } => {
                if stop_requested || !alive {
                    MonitorAction::Finish
                } else {
                    MonitorAction::OpenStream
                }
            },
            MonitorSignal::OpenFailed => self.fail(),
            MonitorSignal::StreamStopped => MonitorAction::Finish,
            MonitorSignal::StreamEnded { got_data, alive, stop_requested } => {
                if got_data {
                    self.retries = 0;
                    self.backoff_ms = INITIAL_BACKOFF_MS;
                }
                if !alive || stop_requested {
                    MonitorAction::Finish
                } else {
                    self.fail()
                }
            },
            MonitorSignal::WaitOver { stop_requested, alive } => {
                if stop_requested {
                    MonitorAction::Finish
                } else {
                    if self.backoff_ms <= MAX_BACKOFF_MS / 2 {
                        self.backoff_ms = self.backoff_ms * 2;
                    } else {
                        self.backoff_ms = MAX_BACKOFF_MS;
                    }
                    if !alive {
                        MonitorAction::Finish
                    } else {
                        MonitorAction::OpenStream
                    }
                }
            },
        }
    }
}

/// The error text sent when monitoring gives up.
pub fn retries_exhausted_message() -> (res: String)
    ensures
        res@ == "Monitor stream stopped after "@ + decimal(MAX_RETRIES as nat) + " retries"@,
{
    let mut v = to_chars("Monitor stream stopped after ");
    crate::text::push_str(&mut v, decimal_string(MAX_RETRIES as u64).as_str());
    crate::text::push_str(&mut v, " retries");
    from_chars(v.as_slice())
}

/// Monitoring never outlives its session or a stop request: any signal that reports the
/// session gone or a stop requested ends monitoring quietly, and a stopped stream does too. The
/// stream is opened only when the session is alive and no stop was requested.
pub proof fn lemma_dead_session_ends_monitoring(v: RetryView, signal: MonitorSignal)
    ensures
        (signal matches MonitorSignal::Check { stop_requested, alive } && (!alive || stop_requested))
            ==> monitor_step_spec(v, signal).1 == MonitorAction::Finish,
        (signal matches MonitorSignal::StreamEnded { alive, stop_requested, .. } && (!alive || stop_requested))
            ==> monitor_step_spec(v, signal).1 == MonitorAction::Finish,
        (signal matches MonitorSignal::WaitOver { stop_requested, alive } && (!alive || stop_requested))
            ==> monitor_step_spec(v, signal).1 == MonitorAction::Finish,
        signal == MonitorSignal::StreamStopped ==> monitor_step_spec(v, signal).1 == MonitorAction::Finish,
        monitor_step_spec(v, signal).1 == MonitorAction::OpenStream ==> (signal == MonitorSignal::Check {
            stop_requested: false,
            alive: true,
        } || signal == MonitorSignal::WaitOver { stop_requested: false, alive: true }),
{
}

/// Every wait the policy asks for lies between the first and the longest wait.
pub proof fn lemma_waits_are_bounded(v: RetryView, signal: MonitorSignal)
    requires
        retry_wf(v),
    ensures
        retry_wf(monitor_step_spec(v, signal).0),
        monitor_step_spec(v, signal).1 matches MonitorAction::Wait(ms) ==> INITIAL_BACKOFF_MS <= ms
            <= MAX_BACKOFF_MS,
{
}

/// After a stream that delivered data ends unexpectedly, the policy starts over: the next try
/// comes after the first wait.
pub proof fn lemma_data_resets_backoff(v: RetryView)
    requires
        retry_wf(v),
    ensures
        monitor_step_spec(v, MonitorSignal::StreamEnded { got_data: true, alive: true, stop_requested: false })
            == (RetryView { retries: 1, backoff_ms: INITIAL_BACKOFF_MS as nat }, MonitorAction::Wait(
            INITIAL_BACKOFF_MS,
        )),
{
}

/// The state after `k` failed opens, each followed by a finished wait, from `v`.
pub open spec fn after_failed_rounds(v: RetryView, k: nat) -> RetryView
    decreases k,
{
    if k == 0 {
        v
    } else {
        let f = monitor_step_spec(after_failed_rounds(v, (k - 1) as nat), MonitorSignal::OpenFailed).0;
        monitor_step_spec(f, MonitorSignal::WaitOver { stop_requested: false, alive: true }).0
    }
}

/// The wait after `k` doublings of the first wait, capped.
pub open spec fn capped_backoff(k: nat) -> nat
    decreases k,
{
    if k == 0 {
        INITIAL_BACKOFF_MS as nat
    } else {
        doubled_backoff(capped_backoff((k - 1) as nat))
    }
}

/// From a fresh policy, while opening keeps failing: the `k`-th try (counting from zero) waits
/// `capped_backoff(k)` milliseconds, for the first `MAX_RETRIES` tries; the next failure gives
/// up.
pub proof fn lemma_failures_back_off_then_give_up(k: nat)
    requires
        k <= MAX_RETRIES,
    ensures
        after_failed_rounds(RetryView { retries: 0, backoff_ms: INITIAL_BACKOFF_MS as nat }, k)
            == (RetryView { retries: k, backoff_ms: capped_backoff(k) }),
        k < MAX_RETRIES ==> monitor_step_spec(
            after_failed_rounds(RetryView { retries: 0, backoff_ms: INITIAL_BACKOFF_MS as nat }, k),
            MonitorSignal::OpenFailed,
        ).1 == MonitorAction::Wait(capped_backoff(k) as u64),
        k == MAX_RETRIES ==> monitor_step_spec(
            after_failed_rounds(RetryView { retries: 0, backoff_ms: INITIAL_BACKOFF_MS as nat }, k),
            MonitorSignal::OpenFailed,
        ).1 == MonitorAction::GiveUp,
    decreases k,
{
    if k > 0 {
        lemma_failures_back_off_then_give_up((k - 1) as nat);
    }
    lemma_capped_backoff_bounds(k);
}

/// Every capped wait lies between the first and the longest wait.
pub proof fn lemma_capped_backoff_bounds(k: nat)
    ensures
        INITIAL_BACKOFF_MS <= capped_backoff(k) <= MAX_BACKOFF_MS,
    decreases k,
{
    if k > 0 {
        lemma_capped_backoff_bounds((k - 1) as nat);
    }
}


// ---------------------------------------------------------------------------
// Cutting the stream into lines
// ---------------------------------------------------------------------------
/// A line buffer longer than this many bytes is dropped.
pub const MAX_LINE_BUFFER: u64 = 1000000;

/// Lines found so far, and the unfinished line.
pub type LineScan = (Seq<Seq<char>>, Seq<char>);

/// The scan after one more character: a line break ends the unfinished line, which is kept
/// trimmed unless nothing but white space is left.
pub open spec fn line_scan_step(st: LineScan, c: char) -> LineScan {
    if c == '\n' {
        let line = trim_spec(st.1.push(c));
        if line.len() == 0 {
            (st.0, Seq::empty())
        } else {
            (st.0.push(line), Seq::empty())
        }
    } else {
        (st.0, st.1.push(c))
    }
}

/// The scan after the characters of `s`, from `st`.
pub open spec fn line_scan(st: LineScan, s: Seq<char>) -> LineScan
    decreases s.len(),
{
    if s.len() == 0 {
        st
    } else {
        line_scan_step(line_scan(st, s.drop_last()), s.last())
    }
}

/// The texts of `v`.
pub open spec fn texts(v: Seq<String>) -> Seq<Seq<char>> {
    v.map_values(|x: String| x@)
}

/// Cuts the sampling stream into lines: complete lines come out trimmed, empty ones are
/// skipped, and the unfinished line waits for more input.
#[derive(Debug)]
pub struct MonitorLineBuffer {
    pending: String,
    undecoded: Vec<u8>,
}

impl View for MonitorLineBuffer {
    type V = Seq<char>;

    /// The unfinished line.
    closed spec fn view(&self) -> Seq<char> {
        self.pending@
    }
}

/// The unfinished line holds no line break.
pub open spec fn no_line_break(s: Seq<char>) -> bool {
    forall|i: int| 0 <= i < s.len() ==> s[i] != '\n'
}

impl MonitorLineBuffer {
    #[verifier::type_invariant]
    spec fn inv(self) -> bool {
        no_line_break(self.pending@)
    }

    /// The bytes of an unfinished character, held back until the rest of it arrives.
    pub closed spec fn undecoded(&self) -> Seq<u8> {
        self.undecoded@
    }

    /// An empty buffer.
    pub fn new() -> (res: Self)
        ensures
            res@ == Seq::<char>::empty(),
            res.undecoded().len() == 0,
    {
        MonitorLineBuffer { pending: String::new(), undecoded: Vec::new() }
    }

    /// The unfinished line.
    pub fn pending(&self) -> (res: &str)
        ensures
            res@ == self@,
    {
        self.pending.as_str()
    }

    /// Adds `text`, when no unfinished character is held back; returns the lines it
    /// completes, in order. An unfinished line longer than `MAX_LINE_BUFFER` bytes is dropped.
    pub fn push_text(&mut self, text: &str) -> (lines: Vec<String>)
        requires
            old(self).undecoded().len() == 0,
        ensures
            final(self).undecoded().len() == 0,
            texts(lines@) == line_scan((Seq::empty(), old(self)@), text@).0,
            final(self)@ == if utf8_len(line_scan((Seq::empty(), old(self)@), text@).1)
                > MAX_LINE_BUFFER {
                Seq::<char>::empty()
            } else {
                line_scan((Seq::empty(), old(self)@), text@).1
            },
    {
        proof {
            use_type_invariant(&*self);
        }
        let cs = to_chars(text);
        let mut cur = to_chars(self.pending.as_str());
        let mut lines: Vec<String> = Vec::new();
        let ghost start: LineScan = (Seq::empty(), old(self)@);
        proof {
            assert(cs@.take(0) =~= Seq::<char>::empty());
            assert(texts(lines@) =~= Seq::<Seq<char>>::empty());
        }
        let mut i: usize = 0;
        while i < cs.len()
            invariant
                i <= cs@.len(),
                cs@ == text@,
                start == (Seq::<Seq<char>>::empty(), old(self)@),
                (texts(lines@), cur@) == line_scan(start, cs@.take(i as int)),
                no_line_break(cur@),
            decreases cs@.len() - i,
        {
            proof {
                assert(cs@.take(i + 1).drop_last() =~= cs@.take(i as int));
            }
            let c = cs[i];
            if c == '\n' {
                cur.push('\n');
                let t = trim(cur.as_slice());
                if t.len() > 0 {
                    let ghost before = lines@;
                    lines.push(from_chars(t.as_slice()));
                    proof {
                        assert(texts(lines@) =~= texts(before).push(t@));
                    }
                }
                cur = Vec::new();
            } else {
                cur.push(c);
            }
            i = i + 1;
        }
        proof {
            assert(cs@.take(i as int) =~= text@);
        }
        if utf8_len_exceeds(cur.as_slice(), MAX_LINE_BUFFER) {
            cur = Vec::new();
        }
        self.pending = from_chars(cur.as_slice());
        lines
    }

    /// Adds the bytes received on the stream; returns the lines they complete. A character
    /// whose bytes are not all there yet is held back until they are, so a character split
    /// between two chunks decodes as one; invalid sequences are replaced.
    pub fn push_bytes(&mut self, bytes: &[u8]) -> (lines: Vec<String>)
        ensures
            texts(lines@) == line_scan(
                (Seq::empty(), old(self)@),
                stream_text(ready_part(old(self).undecoded() + bytes@)),
            ).0,
            final(self)@ == if utf8_len(
                line_scan((Seq::empty(), old(self)@), stream_text(ready_part(old(self).undecoded() + bytes@))).1,
            ) > MAX_LINE_BUFFER {
                Seq::<char>::empty()
            } else {
                line_scan((Seq::empty(), old(self)@), stream_text(ready_part(old(self).undecoded() + bytes@))).1
            },
            final(self).undecoded() == left_over(old(self).undecoded() + bytes@),
    {
        proof {
            use_type_invariant(&*self);
        }
        let (text, rest) = decode_available(self.undecoded.as_slice(), bytes);
        self.undecoded = Vec::new();
        let lines = self.push_text(text.as_str());
        proof {
            use_type_invariant(&*self);
        }
        self.undecoded = rest;
        lines
    }
}


/// A scan's lines are those it started with followed by those it found.
proof fn lemma_line_scan_lines(st: LineScan, s: Seq<char>)
    ensures
        line_scan(st, s) == (st.0 + line_scan((Seq::empty(), st.1), s).0, line_scan((Seq::empty(), st.1), s).1),
    decreases s.len(),
{
    if s.len() == 0 {
        assert(st.0 + Seq::<Seq<char>>::empty() =~= st.0);
    } else {
        lemma_line_scan_lines(st, s.drop_last());
        let p0 = line_scan((Seq::empty(), st.1), s.drop_last());
        let c = s.last();
        if c == '\n' {
            let line = trim_spec(p0.1.push(c));
            if line.len() > 0 {
                assert(st.0 + p0.0.push(line) =~= (st.0 + p0.0).push(line));
            }
        }
    }
}

/// The lines and unfinished line after feeding `bytes` to a buffer whose unfinished line is
/// `pending` and which holds back `held`, as long as the unfinished line stays within
/// `MAX_LINE_BUFFER`: the lines found, the unfinished line, and the bytes held back.
pub open spec fn lines_from_bytes(pending: Seq<char>, held: Seq<u8>, bytes: Seq<u8>) -> (
    Seq<Seq<char>>,
    Seq<char>,
    Seq<u8>,
) {
    let sc = line_scan((Seq::empty(), pending), stream_text(ready_part(held + bytes)));
    (sc.0, sc.1, left_over(held + bytes))
}

/// Where a valid UTF-8 sampling stream is cut into two chunks does not matter, even inside a
/// character: feeding `a` then `c` finds the same lines and leaves the same unfinished line as
/// feeding `a + c`, with nothing held back (while no unfinished line grows past the limit,
/// which would drop it).
pub proof fn lemma_line_bytes_chunking(pending: Seq<char>, a: Seq<u8>, c: Seq<u8>)
    requires
        valid_utf8(a + c),
    ensures
        lines_from_bytes(pending, Seq::empty(), a).0 + lines_from_bytes(
            lines_from_bytes(pending, Seq::empty(), a).1,
            lines_from_bytes(pending, Seq::empty(), a).2,
            c,
        ).0 == lines_from_bytes(pending, Seq::empty(), a + c).0,
        lines_from_bytes(
            lines_from_bytes(pending, Seq::empty(), a).1,
            lines_from_bytes(pending, Seq::empty(), a).2,
            c,
        ).1 == lines_from_bytes(pending, Seq::empty(), a + c).1,
        lines_from_bytes(
            lines_from_bytes(pending, Seq::empty(), a).1,
            lines_from_bytes(pending, Seq::empty(), a).2,
            c,
        ).2.len() == 0,
{
    let e = Seq::<u8>::empty();
    assert(e + a =~= a);
    assert(e + (a + c) =~= a + c);
    crate::utf8_stream::lemma_chunked_decoding(a, c);
    crate::utf8_stream::lemma_valid_is_not_held_back(a + c);
    assert(ready_part(a + c) =~= a + c);
    let t1 = stream_text(ready_part(a));
    let t2 = stream_text(ready_part(left_over(a) + c));
    let s1 = line_scan((Seq::empty(), pending), t1);
    lemma_line_scan_concat((Seq::empty(), pending), t1, t2);
    lemma_line_scan_lines(s1, t2);
}

/// Where the stream is cut into chunks does not matter: scanning `a` then `b` finds the same
/// lines as scanning `a + b`.
pub proof fn lemma_line_scan_concat(st: LineScan, a: Seq<char>, b: Seq<char>)
    ensures
        line_scan(line_scan(st, a), b) == line_scan(st, a + b),
    decreases b.len(),
{
    if b.len() == 0 {
        assert(a + b =~= a);
    } else {
        lemma_line_scan_concat(st, a, b.drop_last());
        assert((a + b).drop_last() =~= a + b.drop_last());
        assert((a + b).last() == b.last());
    }
}

// ---------------------------------------------------------------------------
// Routing a line
// ---------------------------------------------------------------------------
/// Whether `text` is one JSON value, as `serde_json::from_str::<serde_json::Value>` decides.
pub uninterp spec fn json_syntax_ok(text: Seq<char>) -> bool;

/// Parses `text` as a JSON value (`serde_json::from_str::<serde_json::Value>`) and says
/// whether that succeeded. The result is stated to depend on the text alone; which texts
/// parse is left to serde_json.
#[verifier::external_body]
fn json_parses(text: &str) -> (res: bool)
    ensures
        res == json_syntax_ok(text@),
{
    serde_json::from_str::<serde_json::Value>(text).is_ok()
}

/// The tag of `line` and the rest: split at the first space (`str::split_once(' ')`).
pub open spec fn split_tag(line: Seq<char>) -> Option<(Seq<char>, Seq<char>)> {
    match first_index_of(line, ' ') {
        Some(i) => Some((line.subrange(0, i), line.subrange(i + 1, line.len() as int))),
        None => None,
    }
}

/// The sample a line carries, its JSON as payload: `None` for a line without a tag, with
/// malformed JSON (`json_ok` false) or with an unknown tag.
pub open spec fn route_spec(line: Seq<char>, json_ok: bool) -> Option<
    MonitorEvent<Seq<char>, Seq<char>, Seq<char>, Seq<char>>,
> {
    match split_tag(line) {
        None => None,
        Some((tag, json)) => if !json_ok {
            None
        } else if tag == "SYS"@ {
            Some(MonitorEvent::SystemInfo(json))
        } else if tag == "LOAD"@ {
            Some(MonitorEvent::LoadInfo(json))
        } else if tag == "NET"@ {
            Some(MonitorEvent::NetworkInfo(json))
        } else if tag == "DISK"@ {
            Some(MonitorEvent::DiskInfo(json))
        } else {
            None
        },
    }
}

/// Each tag leads to its own sample, whatever JSON follows the first space: `SYS` to the system
/// record, `LOAD` to the load, `NET` to the network, `DISK` to the disks; valid JSON after any
/// other tag (without a space) leads nowhere, and nothing is routed when the JSON is malformed.
pub proof fn lemma_tags_route_to_their_samples(tag: Seq<char>, json: Seq<char>, json_ok: bool)
    requires
        !tag.contains(' '),
    ensures
        !json_ok ==> route_spec(tag + seq![' '] + json, json_ok) is None,
        json_ok && tag == seq!['S', 'Y', 'S'] ==> route_spec(tag + seq![' '] + json, json_ok) == Some(
            MonitorEvent::<Seq<char>, Seq<char>, Seq<char>, Seq<char>>::SystemInfo(json),
        ),
        json_ok && tag == seq!['L', 'O', 'A', 'D'] ==> route_spec(tag + seq![' '] + json, json_ok) == Some(
            MonitorEvent::<Seq<char>, Seq<char>, Seq<char>, Seq<char>>::LoadInfo(json),
        ),
        json_ok && tag == seq!['N', 'E', 'T'] ==> route_spec(tag + seq![' '] + json, json_ok) == Some(
            MonitorEvent::<Seq<char>, Seq<char>, Seq<char>, Seq<char>>::NetworkInfo(json),
        ),
        json_ok && tag == seq!['D', 'I', 'S', 'K'] ==> route_spec(tag + seq![' '] + json, json_ok) == Some(
            MonitorEvent::<Seq<char>, Seq<char>, Seq<char>, Seq<char>>::DiskInfo(json),
        ),
        json_ok && tag != seq!['S', 'Y', 'S'] && tag != seq!['L', 'O', 'A', 'D'] && tag != seq!['N', 'E', 'T']
            && tag != seq!['D', 'I', 'S', 'K'] ==> route_spec(tag + seq![' '] + json, json_ok) is None,
{
    reveal_strlit("SYS");
    reveal_strlit("LOAD");
    reveal_strlit("NET");
    reveal_strlit("DISK");
    assert("SYS"@ =~= seq!['S', 'Y', 'S']);
    assert("LOAD"@ =~= seq!['L', 'O', 'A', 'D']);
    assert("NET"@ =~= seq!['N', 'E', 'T']);
    assert("DISK"@ =~= seq!['D', 'I', 'S', 'K']);
    let line = tag + seq![' '] + json;
    let i = tag.len() as int;
    assert(line[i] == ' ');
    assert forall|k: int| 0 <= k < i implies line[k] != ' ' by {
        assert(line[k] == tag[k]);
    }
    crate::text::lemma_first_index_unique(line, ' ', i);
    assert(line.subrange(0, i) =~= tag);
    assert(line.subrange(i + 1, line.len() as int) =~= json);
}

/// The texts of a routed line.
pub open spec fn routed_view(r: Option<MonitorEvent<String, String, String, String>>) -> Option<
    MonitorEvent<Seq<char>, Seq<char>, Seq<char>, Seq<char>>,
> {
    match r {
        None => None,
        Some(MonitorEvent::SystemInfo(j)) => Some(MonitorEvent::SystemInfo(j@)),
        Some(MonitorEvent::LoadInfo(j)) => Some(MonitorEvent::LoadInfo(j@)),
        Some(MonitorEvent::NetworkInfo(j)) => Some(MonitorEvent::NetworkInfo(j@)),
        Some(MonitorEvent::DiskInfo(j)) => Some(MonitorEvent::DiskInfo(j@)),
        Some(MonitorEvent::Error(e)) => Some(MonitorEvent::Error(e)),
    }
}

/// The JSON part of `line`: what follows its first space, or `None`.
pub fn json_part(line: &str) -> (res: Option<String>)
    ensures
        match split_tag(line@) {
            Some((_, json)) => res matches Some(j) && j@ == json,
            None => res is None,
        },
{
    let cs = to_chars(line);
    match find_char(cs.as_slice(), ' ') {
        Some(i) => {
            assert(i < cs.len());
            Some(from_chars(slice_chars(cs.as_slice(), i + 1, cs.len()).as_slice()))
        },
        None => None,
    }
}

/// Routes `line` by its tag; `json_ok` tells whether its JSON part parsed.
pub fn route_tagged_line(line: &str, json_ok: bool) -> (res: Option<
    MonitorEvent<String, String, String, String>,
>)
    ensures
        routed_view(res) == route_spec(line@, json_ok),
{
    let cs = to_chars(line);
    match find_char(cs.as_slice(), ' ') {
        None => None,
        Some(i) => {
            if !json_ok {
                return None;
            }
            assert(i < cs.len());
            let tag = from_chars(slice_chars(cs.as_slice(), 0, i).as_slice());
            let json = from_chars(slice_chars(cs.as_slice(), i + 1, cs.len()).as_slice());
            if str_eq(tag.as_str(), "SYS") {
                Some(MonitorEvent::SystemInfo(json))
            } else if str_eq(tag.as_str(), "LOAD") {
                Some(MonitorEvent::LoadInfo(json))
            } else if str_eq(tag.as_str(), "NET") {
                Some(MonitorEvent::NetworkInfo(json))
            } else if str_eq(tag.as_str(), "DISK") {
                Some(MonitorEvent::DiskInfo(json))
            } else {
                None
            }
        },
    }
}

/// Routes a line of the sampling stream: its JSON part is parsed, and the line goes where
/// its tag says.
pub fn route_line(line: &str) -> (res: Option<MonitorEvent<String, String, String, String>>)
    ensures
        match split_tag(line@) {
            Some((_, json)) => routed_view(res) == route_spec(line@, json_syntax_ok(json)),
            None => res is None,
        },
{
    match json_part(line) {
        Some(json) => {
            let ok = json_parses(json.as_str());
            route_tagged_line(line, ok)
        },
        None => None,
    }
}

} // verus!
