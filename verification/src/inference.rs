//! Inference server discovery for sglang and vLLM: the decisions taken on
//! what Docker, the process table, `/proc/<pid>/net/tcp` and `netstat`
//! report, and the merging of the targets found.
use vstd::prelude::*;

use crate::number::{decimal, parse_unsigned, push_decimal, spec_parse_unsigned};
use crate::storage::pair_views;
use crate::table::{entries_map, keys_distinct, HostTable};
use crate::text::{
    after_last, after_last_exec, append_str, char_is_whitespace, chars_eq, chars_of, contains,
    contains_text, first_occurrence, find, is_white_space, join, join_chars, lemma_first_occurrence_from,
    lines, lines_of, lowercase, owned, split_whitespace, string_of, string_of_range, to_lowercase,
    trim, trim_chars, views, words, words_of,
};

verus! {

broadcast use vstd::seq_lib::group_seq_properties;

/// A discovered inference server endpoint.
#[derive(Debug, Clone)]
pub struct InferenceTarget {
    /// Base URL, e.g. http://127.0.0.1:8000
    pub base_url: String,
    /// Engine name: sglang or vllm.
    pub engine: String,
}

/// A target as the pair (base URL, engine).
pub open spec fn target_view(t: InferenceTarget) -> (Seq<char>, Seq<char>) {
    (t.base_url@, t.engine@)
}

/// The targets of a vector as (base URL, engine) pairs.
pub open spec fn target_views(ts: Seq<InferenceTarget>) -> Seq<(Seq<char>, Seq<char>)> {
    ts.map_values(|t: InferenceTarget| target_view(t))
}

/// The engine that a manually configured URL names.
pub open spec fn spec_engine_from_url(url: Seq<char>) -> Seq<char> {
    if contains_text(lowercase(url), "vllm"@) {
        "vllm"@
    } else {
        "sglang"@
    }
}

/// Whether the lowercase form of `s` contains `p`.
fn lower_contains(lower: &Vec<char>, p: &str) -> (r: bool)
    ensures
        r == contains_text(lower@, p@),
{
    contains(lower, &chars_of(p))
}

/// Detect the engine from a manual config URL.
pub fn detect_engine_from_url(url: &str) -> (r: String)
    ensures
        r@ == spec_engine_from_url(url@),
{
    let lower = chars_of(to_lowercase(url).as_str());
    if lower_contains(&lower, "vllm") {
        owned("vllm")
    } else {
        owned("sglang")
    }
}

/// The engine that scraped `/metrics` content shows, or `fallback`.
pub open spec fn spec_engine_from_content(body: Seq<char>, fallback: Seq<char>) -> Seq<char> {
    let lower = lowercase(body);
    if contains_text(lower, "vllm:"@) {
        "vllm"@
    } else if contains_text(lower, "sglang:"@) {
        "sglang"@
    } else {
        fallback
    }
}

/// Detect the engine from the scraped `/metrics` content.
///
/// vLLM exposes metrics prefixed with `vllm:`, sglang with `sglang:`.
/// When neither prefix is present, fall back to the URL-based detection.
pub fn detect_engine_from_content(body: &str, fallback: &str) -> (r: String)
    ensures
        r@ == spec_engine_from_content(body@, fallback@),
{
    let lower = chars_of(to_lowercase(body).as_str());
    if lower_contains(&lower, "vllm:") {
        owned("vllm")
    } else if lower_contains(&lower, "sglang:") {
        owned("sglang")
    } else {
        owned(fallback)
    }
}

/// The engine of a program whose lowercase description is `lower`, if it
/// looks like an inference server.
pub open spec fn engine_of_lowercase(lower: Seq<char>) -> Option<Seq<char>> {
    if !(contains_text(lower, "sglang"@) || contains_text(lower, "vllm"@)) {
        None
    } else if contains_text(lower, "vllm"@) {
        Some("vllm"@)
    } else {
        Some("sglang"@)
    }
}

fn engine_of_lowercase_exec(lower: &Vec<char>) -> (r: Option<String>)
    ensures
        r matches Some(e) ==> engine_of_lowercase(lower@) == Some(e@),
        r is None ==> engine_of_lowercase(lower@) is None,
{
    let has_sglang = lower_contains(lower, "sglang");
    let has_vllm = lower_contains(lower, "vllm");
    if !(has_sglang || has_vllm) {
        None
    } else if has_vllm {
        Some(owned("vllm"))
    } else {
        Some(owned("sglang"))
    }
}

/// The engine of a Docker container, judged by `"<name> <image>"` in lowercase.
pub open spec fn spec_container_engine(name: Seq<char>, image: Seq<char>) -> Option<Seq<char>> {
    engine_of_lowercase(lowercase(name + " "@ + image))
}

/// The engine of a Docker container with this name and image, if it looks
/// like an inference server.
pub fn container_engine(name: &str, image: &str) -> (r: Option<String>)
    ensures
        r matches Some(e) ==> spec_container_engine(name@, image@) == Some(e@),
        r is None ==> spec_container_engine(name@, image@) is None,
{
    let mut both = owned(name);
    append_str(&mut both, " ");
    append_str(&mut both, image);
    let lower = chars_of(to_lowercase(both.as_str()).as_str());
    engine_of_lowercase_exec(&lower)
}

/// The engine of a process, judged by its name and by its arguments, each
/// in lowercase, the arguments joined with spaces.
pub open spec fn spec_process_engine(name: Seq<char>, args: Seq<Seq<char>>) -> Option<Seq<char>> {
    let n = lowercase(name);
    let c = join(args.map_values(|a: Seq<char>| lowercase(a)), " "@);
    if !(contains_text(n, "sglang"@) || contains_text(n, "vllm"@) || contains_text(c, "sglang"@)
        || contains_text(c, "vllm"@)) {
        None
    } else if contains_text(n, "vllm"@) || contains_text(c, "vllm"@) {
        Some("vllm"@)
    } else {
        Some("sglang"@)
    }
}

/// A process is taken for a vLLM server when its lowercase name or its
/// lowercase arguments, joined with spaces, mention `vllm`; for an sglang
/// server when they mention `sglang` and neither mentions `vllm`; and for
/// no inference server when neither mentions either engine.
pub proof fn law_process_engine(name: Seq<char>, args: Seq<Seq<char>>)
    ensures
        ({
            let n = lowercase(name);
            let c = join(args.map_values(|a: Seq<char>| lowercase(a)), " "@);
            &&& contains_text(n, "vllm"@) ==> spec_process_engine(name, args) == Some("vllm"@)
            &&& contains_text(c, "vllm"@) ==> spec_process_engine(name, args) == Some("vllm"@)
            &&& (contains_text(n, "sglang"@) || contains_text(c, "sglang"@)) && !contains_text(
                n,
                "vllm"@,
            ) && !contains_text(c, "vllm"@) ==> spec_process_engine(name, args) == Some("sglang"@)
            &&& !contains_text(n, "sglang"@) && !contains_text(n, "vllm"@) && !contains_text(
                c,
                "sglang"@,
            ) && !contains_text(c, "vllm"@) ==> spec_process_engine(name, args) is None
        }),
{
}

/// A container is taken for a vLLM server when its lowercase name and image
/// mention `vllm`; for an sglang server when they mention `sglang` but not
/// `vllm`; and for no inference server when they mention neither.
pub proof fn law_container_engine(name: Seq<char>, image: Seq<char>)
    ensures
        ({
            let l = lowercase(name + " "@ + image);
            &&& contains_text(l, "vllm"@) ==> spec_container_engine(name, image) == Some("vllm"@)
            &&& contains_text(l, "sglang"@) && !contains_text(l, "vllm"@) ==> spec_container_engine(
                name,
                image,
            ) == Some("sglang"@)
            &&& !contains_text(l, "sglang"@) && !contains_text(l, "vllm"@) ==> spec_container_engine(
                name,
                image,
            ) is None
        }),
{
}

/// The engine of a process with this name and these arguments, if it looks
/// like an inference server.
pub fn process_engine(name: &str, args: &Vec<String>) -> (r: Option<String>)
    ensures
        r matches Some(e) ==> spec_process_engine(name@, views(args@)) == Some(e@),
        r is None ==> spec_process_engine(name@, views(args@)) is None,
{
    let n = chars_of(to_lowercase(name).as_str());
    let mut lowered: Vec<String> = Vec::new();
    let mut i: usize = 0;
    while i < args.len()
        invariant
            i <= args@.len(),
            views(lowered@) == views(args@).take(i as int).map_values(|a: Seq<char>| lowercase(a)),
        decreases args.len() - i,
    {
        let l = to_lowercase(args[i].as_str());
        let ghost before = lowered@;
        lowered.push(l);
        proof {
            assert(views(lowered@) =~= views(before).push(l@));
            assert(views(args@).take(i + 1).map_values(|a: Seq<char>| lowercase(a)) =~= views(
                args@,
            ).take(i as int).map_values(|a: Seq<char>| lowercase(a)).push(lowercase(args@[i as int]@)));
        }
        i = i + 1;
    }
    assert(views(args@).take(args@.len() as int) =~= views(args@));
    let c = join_chars(&lowered, " ");
    let n_sglang = lower_contains(&n, "sglang");
    let n_vllm = lower_contains(&n, "vllm");
    let c_sglang = lower_contains(&c, "sglang");
    let c_vllm = lower_contains(&c, "vllm");
    if !(n_sglang || n_vllm || c_sglang || c_vllm) {
        None
    } else if n_vllm || c_vllm {
        Some(owned("vllm"))
    } else {
        Some(owned("sglang"))
    }
}

/// `http://<host>:<port>`.
pub open spec fn spec_base_url(host: Seq<char>, port: nat) -> Seq<char> {
    "http://"@ + host + ":"@ + decimal(port)
}

/// The base URL of a server listening on `host` at `port`.
pub fn base_url(host: &str, port: u16) -> (r: String)
    ensures
        r@ == spec_base_url(host@, port as nat),
{
    let mut out = owned("http://");
    append_str(&mut out, host);
    append_str(&mut out, ":");
    push_decimal(&mut out, port as u64);
    out
}

/// A decimal TCP port number.
pub open spec fn spec_parse_port(s: Seq<char>) -> Option<nat> {
    spec_parse_unsigned(s, 10, 65535)
}

/// The first host port among a container's published port bindings that
/// reads as a port number.
pub open spec fn spec_published_port(host_ports: Seq<Option<Seq<char>>>) -> Option<nat>
    decreases host_ports.len(),
{
    if host_ports.len() == 0 {
        None
    } else {
        match spec_published_port(host_ports.drop_last()) {
            Some(p) => Some(p),
            None => match host_ports.last() {
                Some(h) => spec_parse_port(h),
                None => None,
            },
        }
    }
}

/// What a host port binding reads as, when it reads as a port number.
pub open spec fn port_reading(o: Option<Seq<char>>) -> Option<nat> {
    match o {
        Some(h) => spec_parse_port(h),
        None => None,
    }
}

/// The published port is the first host port, in the order given, that
/// reads as a port number; there is none only when no host port reads as
/// one.
pub proof fn law_published_port(hp: Seq<Option<Seq<char>>>)
    ensures
        spec_published_port(hp) matches Some(p) ==> exists|k: int|
            0 <= k < hp.len() && port_reading(hp[k]) == Some(p) && forall|j: int|
                0 <= j < k ==> (#[trigger] port_reading(hp[j])) is None,
        spec_published_port(hp) is None <==> forall|k: int|
            0 <= k < hp.len() ==> (#[trigger] port_reading(hp[k])) is None,
    decreases hp.len(),
{
    if hp.len() > 0 {
        let t = hp.drop_last();
        law_published_port(t);
        assert forall|k: int| 0 <= k < t.len() implies t[k] == hp[k] by {}
        match spec_published_port(t) {
            Some(p) => {
                let k = choose|k: int|
                    0 <= k < t.len() && port_reading(t[k]) == Some(p) && forall|j: int|
                        0 <= j < k ==> (#[trigger] port_reading(t[j])) is None;
                assert(port_reading(hp[k]) == Some(p));
                assert forall|j: int| 0 <= j < k implies (#[trigger] port_reading(hp[j])) is None by {
                    assert(t[j] == hp[j]);
                }
            },
            None => {
                assert(port_reading(hp.last()) == port_reading(hp[hp.len() - 1]));
                assert forall|j: int| 0 <= j < hp.len() - 1 implies (#[trigger] port_reading(hp[j])) is None by {
                    assert(t[j] == hp[j]);
                }
                if spec_published_port(hp) is None {
                    assert forall|k: int| 0 <= k < hp.len() implies (#[trigger] port_reading(hp[k])) is None by {
                        if k < hp.len() - 1 {
                            assert(t[k] == hp[k]);
                        }
                    }
                }
            },
        }
    }
}

/// The views of a vector of optional strings.
pub open spec fn opt_views(v: Seq<Option<String>>) -> Seq<Option<Seq<char>>> {
    v.map_values(
        |o: Option<String>|
            match o {
                Some(s) => Some(s@),
                None => None,
            },
    )
}

/// Extract the first published TCP port from a container's port bindings,
/// given as their host ports in the order Docker reports them.
pub fn extract_published_port(host_ports: &Vec<Option<String>>) -> (r: Option<u16>)
    ensures
        r matches Some(p) ==> spec_published_port(opt_views(host_ports@)) == Some(p as nat),
        r is None ==> spec_published_port(opt_views(host_ports@)) is None,
{
    let mut i: usize = 0;
    while i < host_ports.len()
        invariant
            i <= host_ports@.len(),
            spec_published_port(opt_views(host_ports@).take(i as int)) is None,
        decreases host_ports.len() - i,
    {
        let ghost hp = opt_views(host_ports@);
        assert(hp.take(i + 1).drop_last() =~= hp.take(i as int));
        match &host_ports[i] {
            Some(h) => {
                let found = parse_unsigned(&chars_of(h.as_str()), 10, 65535);
                if let Some(p) = found {
                    proof {
                        lemma_published_port_prefix(hp, i + 1);
                    }
                    return Some(p as u16);
                }
            },
            None => {},
        }
        i = i + 1;
    }
    assert(opt_views(host_ports@).take(host_ports@.len() as int) =~= opt_views(host_ports@));
    None
}

proof fn lemma_published_port_prefix(hp: Seq<Option<Seq<char>>>, n: int)
    requires
        0 <= n <= hp.len(),
        spec_published_port(hp.take(n)) is Some,
    ensures
        spec_published_port(hp) == spec_published_port(hp.take(n)),
    decreases hp.len() - n,
{
    if n < hp.len() {
        assert(hp.take(n + 1).drop_last() =~= hp.take(n));
        lemma_published_port_prefix(hp, n + 1);
    } else {
        assert(hp.take(n) =~= hp);
    }
}

/// The port after the first `--port` argument, at or after argument `i`,
/// whose next argument reads as a port.
pub open spec fn flag_port_from(cmd: Seq<Seq<char>>, i: int) -> Option<nat>
    decreases cmd.len() - i,
{
    if i < 0 || i >= cmd.len() {
        None
    } else if cmd[i] == "--port"@ && i + 1 < cmd.len() && spec_parse_port(cmd[i + 1]) is Some {
        spec_parse_port(cmd[i + 1])
    } else {
        flag_port_from(cmd, i + 1)
    }
}

proof fn lemma_flag_port_at(c: Seq<Seq<char>>, k: int, j: int)
    requires
        0 <= j <= k,
        k + 1 < c.len(),
        c[k] == "--port"@,
        spec_parse_port(c[k + 1]) is Some,
        forall|m: int|
            0 <= m < k ==> !(#[trigger] c[m] == "--port"@ && spec_parse_port(c[m + 1]) is Some),
    ensures
        flag_port_from(c, j) == spec_parse_port(c[k + 1]),
    decreases k - j,
{
    if j < k {
        lemma_flag_port_at(c, k, j + 1);
    }
}

/// A command with `--port` followed by an argument that reads as a port
/// number, where no earlier `--port` is so followed, serves on that port.
pub proof fn law_port_flag(c: Seq<Seq<char>>, k: int)
    requires
        0 <= k,
        k + 1 < c.len(),
        c[k] == "--port"@,
        spec_parse_port(c[k + 1]) is Some,
        forall|m: int|
            0 <= m < k ==> !(#[trigger] c[m] == "--port"@ && spec_parse_port(c[m + 1]) is Some),
    ensures
        spec_port_from_command(Some(c)) == spec_parse_port(c[k + 1]),
{
    lemma_flag_port_at(c, k, 0);
}

/// The first word after the first occurrence of `flag` in `text`, if both exist.
pub open spec fn word_after(text: Seq<char>, flag: Seq<char>) -> Option<Seq<char>> {
    match first_occurrence(text, flag) {
        Some(pos) => {
            let ws = words(text.skip(pos + flag.len()));
            if ws.len() > 0 {
                Some(ws[0])
            } else {
                None
            }
        },
        None => None,
    }
}

/// The API port of an inference container from its command line: the
/// argument after `--port`; else, in the command joined with spaces, the word
/// after `--port `; else 8000. None when the container has no command.
pub open spec fn spec_port_from_command(cmd: Option<Seq<Seq<char>>>) -> Option<nat> {
    match cmd {
        None => None,
        Some(c) => match flag_port_from(c, 0) {
            Some(p) => Some(p),
            None => match word_after(join(c, " "@), "--port "@) {
                Some(w) => match spec_parse_port(w) {
                    Some(p) => Some(p),
                    None => Some(8000),
                },
                None => Some(8000),
            },
        },
    }
}

/// The first word after the first occurrence of `flag` in `text`.
fn word_after_exec(text: &Vec<char>, flag: &str) -> (r: Option<String>)
    ensures
        r matches Some(w) ==> word_after(text@, flag@) == Some(w@),
        r is None ==> word_after(text@, flag@) is None,
{
    let f = chars_of(flag);
    match find(text, &f) {
        Some(pos) => {
            proof {
                crate::text::lemma_first_occurrence_from(text@, flag@, 0);
                assert(crate::text::occurs_at(text@, f@, pos as int));
                assert(pos + f@.len() <= text@.len());
                assert(text@.len() == text.len());
            }
            let mut rest: Vec<char> = Vec::new();
            let mut i = pos + f.len();
            let start = i;
            while i < text.len()
                invariant
                    start <= i <= text.len(),
                    rest@ == text@.subrange(start as int, i as int),
                decreases text.len() - i,
            {
                rest.push(text[i]);
                i = i + 1;
            }
            assert(rest@ =~= text@.skip(start as int));
            let ws = words_of(&rest);
            if ws.len() > 0 {
                assert(ws@[0]@ == views(ws@)[0]);
                Some(ws[0].clone())
            } else {
                None
            }
        },
        None => None,
    }
}

/// Extract the API port (`--port`) from the container command line.
/// Handles both direct array args and bash -c wrapped commands.
/// Falls back to the vLLM/sglang default port 8000.
pub fn extract_port_from_command(cmd: Option<&Vec<String>>) -> (r: Option<u16>)
    ensures
        r matches Some(p) ==> spec_port_from_command(
            match cmd {
                Some(c) => Some(views(c@)),
                None => None,
            },
        ) == Some(p as nat),
        r is None ==> cmd is None,
{
    let args = match cmd {
        Some(c) => c,
        None => return None,
    };
    let ghost cv = views(args@);
    let flag = chars_of("--port");
    let mut i: usize = 0;
    while i < args.len()
        invariant
            i <= args@.len(),
            cv == views(args@),
            cmd == Some(args),
            flag@ == "--port"@,
            flag_port_from(cv, 0) == flag_port_from(cv, i as int),
        decreases args.len() - i,
    {
        assert(cv[i as int] == args@[i as int]@);
        if i + 1 < args.len() {
            assert(cv[i + 1] == args@[i + 1]@);
        }
        if chars_eq(&chars_of(args[i].as_str()), &flag) && i + 1 < args.len() {
            let p = parse_unsigned(&chars_of(args[i + 1].as_str()), 10, 65535);
            if let Some(port) = p {
                return Some(port as u16);
            }
        }
        i = i + 1;
    }
    let joined = join_chars(args, " ");
    match word_after_exec(&joined, "--port ") {
        Some(w) => match parse_unsigned(&chars_of(w.as_str()), 10, 65535) {
            Some(port) => Some(port as u16),
            None => Some(8000),
        },
        None => Some(8000),
    }
}

/// The argument after the first `--master-addr`, at or after argument `i`:
/// `Some(None)` when `--master-addr` is the last argument, `None` when there
/// is none.
pub open spec fn flag_value_from(cmd: Seq<Seq<char>>, i: int) -> Option<Option<Seq<char>>>
    decreases cmd.len() - i,
{
    if i < 0 || i >= cmd.len() {
        None
    } else if cmd[i] == "--master-addr"@ {
        Some(
            if i + 1 < cmd.len() {
                Some(cmd[i + 1])
            } else {
                None
            },
        )
    } else {
        flag_value_from(cmd, i + 1)
    }
}

/// The head node address of a multi-node deployment from its command line:
/// the argument after `--master-addr` (none when it is the last argument);
/// else, in the command joined with spaces, the word after `--master-addr `.
pub open spec fn spec_master_addr(cmd: Option<Seq<Seq<char>>>) -> Option<Seq<char>> {
    match cmd {
        None => None,
        Some(c) => match flag_value_from(c, 0) {
            Some(v) => v,
            None => word_after(join(c, " "@), "--master-addr "@),
        },
    }
}

/// Extract the head node address (`--master-addr`) from the container command
/// line. Handles both direct array args and bash -c wrapped commands.
/// Returns None for single-node setups, in which case 127.0.0.1 is the
/// correct address.
pub fn extract_master_addr(cmd: Option<&Vec<String>>) -> (r: Option<String>)
    ensures
        r matches Some(a) ==> spec_master_addr(
            match cmd {
                Some(c) => Some(views(c@)),
                None => None,
            },
        ) == Some(a@),
        r is None ==> spec_master_addr(
            match cmd {
                Some(c) => Some(views(c@)),
                None => None,
            },
        ) is None,
{
    let args = match cmd {
        Some(c) => c,
        None => return None,
    };
    let ghost cv = views(args@);
    let flag = chars_of("--master-addr");
    let mut i: usize = 0;
    while i < args.len()
        invariant
            i <= args@.len(),
            cv == views(args@),
            cmd == Some(args),
            flag@ == "--master-addr"@,
            flag_value_from(cv, 0) == flag_value_from(cv, i as int),
        decreases args.len() - i,
    {
        assert(cv[i as int] == args@[i as int]@);
        if chars_eq(&chars_of(args[i].as_str()), &flag) {
            if i + 1 < args.len() {
                assert(cv[i + 1] == args@[i + 1]@);
                return Some(args[i + 1].clone());
            } else {
                return None;
            }
        }
        i = i + 1;
    }
    let joined = join_chars(args, " ");
    word_after_exec(&joined, "--master-addr ")
}

/// The optional command line of a container as char sequences.
pub open spec fn cmd_view(cmd: Option<&Vec<String>>) -> Option<Seq<Seq<char>>> {
    match cmd {
        Some(c) => Some(views(c@)),
        None => None,
    }
}

/// An optional port widened.
pub open spec fn port_view(p: Option<u16>) -> Option<nat> {
    match p {
        Some(n) => Some(n as nat),
        None => None,
    }
}

/// An optional text as its chars.
pub open spec fn mode_view(m: Option<&str>) -> Option<Seq<char>> {
    match m {
        Some(t) => Some(t@),
        None => None,
    }
}

/// The target of an inspected inference container: its published port on
/// the loopback address; else, on host networking, the `--port` of its
/// command line (8000 when none) at its `--master-addr` (the loopback
/// address when none); else none.
pub open spec fn spec_container_target(
    engine: Seq<char>,
    published: Option<nat>,
    network_mode: Option<Seq<char>>,
    cmd: Option<Seq<Seq<char>>>,
) -> Option<(Seq<char>, Seq<char>)> {
    match published {
        Some(p) => Some((spec_base_url("127.0.0.1"@, p), engine)),
        None => if network_mode == Some("host"@) {
            let port = match spec_port_from_command(cmd) {
                Some(p) => p,
                None => 8000,
            };
            let host = match spec_master_addr(cmd) {
                Some(h) => h,
                None => "127.0.0.1"@,
            };
            Some((spec_base_url(host, port), engine))
        } else {
            None
        },
    }
}

/// The target of an inspected inference container of engine `engine`, from
/// its first published port, its network mode and its command line.
pub fn container_target(
    engine: &str,
    published: Option<u16>,
    network_mode: Option<&str>,
    cmd: Option<&Vec<String>>,
) -> (r: Option<InferenceTarget>)
    ensures
        r matches Some(t) ==> spec_container_target(
            engine@,
            port_view(published),
            mode_view(network_mode),
            cmd_view(cmd),
        ) == Some(target_view(t)),
        r is None ==> spec_container_target(
            engine@,
            port_view(published),
            mode_view(network_mode),
            cmd_view(cmd),
        ) is None,
{
    if let Some(p) = published {
        return Some(InferenceTarget { base_url: base_url("127.0.0.1", p), engine: owned(engine) });
    }
    let is_host = match network_mode {
        Some(m) => chars_eq(&chars_of(m), &chars_of("host")),
        None => false,
    };
    if !is_host {
        return None;
    }
    let port: u16 = match extract_port_from_command(cmd) {
        Some(p) => p,
        None => 8000,
    };
    let host = match extract_master_addr(cmd) {
        Some(h) => h,
        None => owned("127.0.0.1"),
    };
    Some(InferenceTarget { base_url: base_url(host.as_str(), port), engine: owned(engine) })
}

/// The lines of `ls` after the first `n` (none when there are no more).
pub open spec fn after_lines(ls: Seq<Seq<char>>, n: int) -> Seq<Seq<char>> {
    if ls.len() <= n {
        seq![]
    } else {
        ls.skip(n)
    }
}

/// The port of a listening socket described by one line of
/// `/proc/<pid>/net/tcp` (state `0A`; the hex port after the last `:` of the
/// local address).
pub open spec fn tcp_line_port(line: Seq<char>) -> Option<nat> {
    let f = words(line);
    if f.len() < 4 || f[3] != "0A"@ {
        None
    } else {
        spec_parse_unsigned(after_last(f[1], ':'), 16, 65535)
    }
}

/// The first listening port among the lines `ls`.
pub open spec fn first_tcp_port(ls: Seq<Seq<char>>) -> Option<nat>
    decreases ls.len(),
{
    if ls.len() == 0 {
        None
    } else {
        match first_tcp_port(ls.drop_last()) {
            Some(p) => Some(p),
            None => tcp_line_port(ls.last()),
        }
    }
}

/// The first listening TCP port in the content of `/proc/<pid>/net/tcp`
/// (after its header line).
pub open spec fn spec_listening_port(table: Seq<char>) -> Option<nat> {
    first_tcp_port(after_lines(lines(table), 1))
}

proof fn lemma_first_tcp_port_prefix(ls: Seq<Seq<char>>, n: int)
    requires
        0 <= n <= ls.len(),
        first_tcp_port(ls.take(n)) is Some,
    ensures
        first_tcp_port(ls) == first_tcp_port(ls.take(n)),
    decreases ls.len() - n,
{
    if n < ls.len() {
        assert(ls.take(n + 1).drop_last() =~= ls.take(n));
        lemma_first_tcp_port_prefix(ls, n + 1);
    } else {
        assert(ls.take(n) =~= ls);
    }
}

/// The listening port of one `/proc/<pid>/net/tcp` line.
fn tcp_line_port_exec(line: &String) -> (r: Option<u16>)
    ensures
        r matches Some(p) ==> tcp_line_port(line@) == Some(p as nat),
        r is None ==> tcp_line_port(line@) is None,
{
    let fields = split_whitespace(line.as_str());
    if fields.len() < 4 {
        return None;
    }
    assert(views(fields@)[3] == fields@[3]@);
    assert(views(fields@)[1] == fields@[1]@);
    let listen = chars_of("0A");
    if !chars_eq(&chars_of(fields[3].as_str()), &listen) {
        return None;
    }
    let port_hex = after_last_exec(&chars_of(fields[1].as_str()), ':');
    match parse_unsigned(&port_hex, 16, 65535) {
        Some(p) => Some(p as u16),
        None => None,
    }
}

/// Find the first listening TCP port in the content of a process's
/// `/proc/<pid>/net/tcp` table.
pub fn listening_port_in_tcp_table(table: &str) -> (r: Option<u16>)
    ensures
        r matches Some(p) ==> spec_listening_port(table@) == Some(p as nat),
        r is None ==> spec_listening_port(table@) is None,
{
    let ls = lines_of(&chars_of(table));
    let ghost all = after_lines(views(ls@), 1);
    if ls.len() <= 1 {
        return None;
    }
    let mut i: usize = 1;
    while i < ls.len()
        invariant
            1 <= i <= ls@.len(),
            views(ls@) == lines(table@),
            all == after_lines(views(ls@), 1),
            all == views(ls@).skip(1),
            first_tcp_port(all.take(i - 1)) is None,
        decreases ls.len() - i,
    {
        assert(all.take(i as int).drop_last() =~= all.take(i - 1));
        assert(all[i - 1] == ls@[i as int]@);
        if let Some(p) = tcp_line_port_exec(&ls[i]) {
            proof {
                lemma_first_tcp_port_prefix(all, i as int);
            }
            return Some(p);
        }
        i = i + 1;
    }
    assert(all.take(all.len() as int) =~= all);
    None
}

/// The inference target that one line of `netstat -tlnp` shows, as
/// (base URL, engine): a line naming sglang or vLLM whose fourth field is a
/// local address ending in `:<port>`.
pub open spec fn netstat_line_target(line: Seq<char>) -> Option<(Seq<char>, Seq<char>)> {
    let lower = lowercase(line);
    if !(contains_text(lower, "sglang"@) || contains_text(lower, "vllm"@)) {
        None
    } else {
        let f = words(line);
        if f.len() < 4 {
            None
        } else {
            match spec_parse_port(after_last(f[3], ':')) {
                Some(p) => Some(
                    (
                        spec_base_url("127.0.0.1"@, p),
                        if contains_text(lower, "vllm"@) {
                            "vllm"@
                        } else {
                            "sglang"@
                        },
                    ),
                ),
                None => None,
            }
        }
    }
}

/// The targets that the lines `ls` show, in order.
pub open spec fn netstat_lines_targets(ls: Seq<Seq<char>>) -> Seq<(Seq<char>, Seq<char>)>
    decreases ls.len(),
{
    if ls.len() == 0 {
        seq![]
    } else {
        netstat_lines_targets(ls.drop_last()) + match netstat_line_target(ls.last()) {
            Some(t) => seq![t],
            None => seq![],
        }
    }
}

/// The inference targets in the output of `netstat -tlnp` (after its two
/// header lines).
pub open spec fn spec_netstat_targets(stdout: Seq<char>) -> Seq<(Seq<char>, Seq<char>)> {
    netstat_lines_targets(after_lines(lines(stdout), 2))
}

fn netstat_line_target_exec(line: &String) -> (r: Option<InferenceTarget>)
    ensures
        r matches Some(t) ==> netstat_line_target(line@) == Some(target_view(t)),
        r is None ==> netstat_line_target(line@) is None,
{
    let lower = chars_of(to_lowercase(line.as_str()).as_str());
    let has_sglang = lower_contains(&lower, "sglang");
    let has_vllm = lower_contains(&lower, "vllm");
    if !(has_sglang || has_vllm) {
        return None;
    }
    let fields = split_whitespace(line.as_str());
    if fields.len() < 4 {
        return None;
    }
    assert(views(fields@)[3] == fields@[3]@);
    let port_text = after_last_exec(&chars_of(fields[3].as_str()), ':');
    match parse_unsigned(&port_text, 10, 65535) {
        Some(p) => {
            let engine = if has_vllm {
                owned("vllm")
            } else {
                owned("sglang")
            };
            Some(InferenceTarget { base_url: base_url("127.0.0.1", p as u16), engine })
        },
        None => None,
    }
}

/// The inference targets that `netstat -tlnp` output shows: each line that
/// names sglang or vLLM and carries a local port gives
/// `http://127.0.0.1:<port>`.
pub fn netstat_targets(stdout: &str) -> (r: Vec<InferenceTarget>)
    ensures
        target_views(r@) == spec_netstat_targets(stdout@),
{
    let ls = lines_of(&chars_of(stdout));
    let ghost all = after_lines(views(ls@), 2);
    let mut out: Vec<InferenceTarget> = Vec::new();
    if ls.len() <= 2 {
        assert(target_views(out@) =~= Seq::<(Seq<char>, Seq<char>)>::empty());
        return out;
    }
    let mut i: usize = 2;
    while i < ls.len()
        invariant
            2 <= i <= ls@.len(),
            all == views(ls@).skip(2),
            target_views(out@) == netstat_lines_targets(all.take(i - 2)),
        decreases ls.len() - i,
    {
        assert(all.take(i - 1).drop_last() =~= all.take(i - 2));
        assert(all[i - 2] == ls@[i as int]@);
        let t = netstat_line_target_exec(&ls[i]);
        let ghost before = out@;
        match t {
            Some(t) => {
                out.push(t);
                assert(target_views(out@) =~= target_views(before) + seq![target_view(t)]);
            },
            None => {
                assert(target_views(out@) =~= target_views(before) + Seq::<
                    (Seq<char>, Seq<char>),
                >::empty());
            },
        }
        i = i + 1;
    }
    assert(all.take(all.len() as int) =~= all);
    out
}

/// `targets` followed by one target per manual URL, its engine read off the URL.
pub open spec fn spec_with_manual_targets(
    targets: Seq<(Seq<char>, Seq<char>)>,
    manual: Seq<Seq<char>>,
) -> Seq<(Seq<char>, Seq<char>)> {
    targets + manual.map_values(|u: Seq<char>| (u, spec_engine_from_url(u)))
}

/// Append a target for each manually configured base URL.
pub fn add_manual_targets(targets: &mut Vec<InferenceTarget>, manual: &Vec<String>)
    ensures
        target_views(final(targets)@) == spec_with_manual_targets(
            target_views(old(targets)@),
            views(manual@),
        ),
{
    let ghost start = target_views(targets@);
    let mut i: usize = 0;
    while i < manual.len()
        invariant
            i <= manual@.len(),
            target_views(targets@) == start + views(manual@).take(i as int).map_values(
                |u: Seq<char>| (u, spec_engine_from_url(u)),
            ),
        decreases manual.len() - i,
    {
        let url = manual[i].clone();
        let engine = detect_engine_from_url(manual[i].as_str());
        let t = InferenceTarget { base_url: url, engine };
        let ghost before = targets@;
        targets.push(t);
        proof {
            let m = views(manual@);
            assert(target_views(targets@) =~= target_views(before).push(target_view(t)));
            assert(m.take(i + 1).map_values(|u: Seq<char>| (u, spec_engine_from_url(u))) =~= m.take(
                i as int,
            ).map_values(|u: Seq<char>| (u, spec_engine_from_url(u))).push((m[i as int], spec_engine_from_url(m[i as int]))));
        }
        i = i + 1;
    }
    assert(views(manual@).take(manual@.len() as int) =~= views(manual@));
}

/// Some target of `ts` has base URL `url`.
pub open spec fn has_url(ts: Seq<(Seq<char>, Seq<char>)>, url: Seq<char>) -> bool {
    exists|j: int| 0 <= j < ts.len() && (#[trigger] ts[j]).0 == url
}

/// `ts` with every target whose base URL occurred earlier left out.
pub open spec fn dedup_by_url(ts: Seq<(Seq<char>, Seq<char>)>) -> Seq<(Seq<char>, Seq<char>)>
    decreases ts.len(),
{
    if ts.len() == 0 {
        seq![]
    } else if has_url(ts.drop_last(), ts.last().0) {
        dedup_by_url(ts.drop_last())
    } else {
        dedup_by_url(ts.drop_last()).push(ts.last())
    }
}

proof fn lemma_has_url_push(s: Seq<(Seq<char>, Seq<char>)>, x: (Seq<char>, Seq<char>), u: Seq<char>)
    ensures
        has_url(s.push(x), u) <==> (has_url(s, u) || x.0 == u),
{
    if has_url(s.push(x), u) {
        let j = choose|j: int| 0 <= j < s.push(x).len() && (#[trigger] s.push(x)[j]).0 == u;
        if j < s.len() {
            assert(s[j] == s.push(x)[j]);
        }
    }
    if has_url(s, u) {
        let j = choose|j: int| 0 <= j < s.len() && (#[trigger] s[j]).0 == u;
        assert(s.push(x)[j] == s[j]);
    }
    if x.0 == u {
        assert(s.push(x)[s.len() as int] == x);
    }
}

/// Deduplicating keeps the set of base URLs.
pub proof fn lemma_dedup_urls(ts: Seq<(Seq<char>, Seq<char>)>)
    ensures
        forall|u: Seq<char>| has_url(dedup_by_url(ts), u) <==> has_url(ts, u),
    decreases ts.len(),
{
    if ts.len() > 0 {
        let t = ts.drop_last();
        lemma_dedup_urls(t);
        assert(ts =~= t.push(ts.last()));
        assert forall|u: Seq<char>| has_url(dedup_by_url(ts), u) <==> has_url(ts, u) by {
            lemma_has_url_push(t, ts.last(), u);
            lemma_has_url_push(dedup_by_url(t), ts.last(), u);
            if has_url(t, ts.last().0) && ts.last().0 == u {
                assert(has_url(t, u));
            }
        }
    }
}

/// Deduplicate targets by base URL, keeping the first of each.
pub fn dedup_targets(targets: Vec<InferenceTarget>) -> (r: Vec<InferenceTarget>)
    ensures
        target_views(r@) == dedup_by_url(target_views(targets@)),
{
    let ghost tv = target_views(targets@);
    let mut out: Vec<InferenceTarget> = Vec::new();
    let mut i: usize = 0;
    while i < targets.len()
        invariant
            i <= targets@.len(),
            tv == target_views(targets@),
            target_views(out@) == dedup_by_url(tv.take(i as int)),
        decreases targets.len() - i,
    {
        proof {
            lemma_dedup_urls(tv.take(i as int));
            assert(tv.take(i + 1).drop_last() =~= tv.take(i as int));
            assert(tv.take(i + 1).last() == tv[i as int]);
        }
        let url = chars_of(targets[i].base_url.as_str());
        let mut seen = false;
        let mut j: usize = 0;
        while j < out.len()
            invariant
                j <= out@.len(),
                url@ == tv[i as int].0,
                seen == exists|k: int| 0 <= k < j && (#[trigger] target_views(out@)[k]).0 == url@,
            decreases out.len() - j,
        {
            if chars_eq(&chars_of(out[j].base_url.as_str()), &url) {
                assert(target_views(out@)[j as int].0 == url@);
                seen = true;
            }
            j = j + 1;
        }
        assert(seen == has_url(target_views(out@), url@));
        assert(has_url(tv.take(i as int), url@) == has_url(dedup_by_url(tv.take(i as int)), url@));
        if !seen {
            let t = targets[i].clone_target();
            let ghost before = out@;
            out.push(t);
            assert(target_views(out@) =~= target_views(before).push(target_view(t)));
        }
        i = i + 1;
    }
    assert(tv.take(tv.len() as int) =~= tv);
    out
}

impl InferenceTarget {
    /// A copy of the target.
    pub fn clone_target(&self) -> (r: InferenceTarget)
        ensures
            target_view(r) == target_view(*self),
    {
        InferenceTarget { base_url: self.base_url.clone(), engine: self.engine.clone() }
    }
}

// ---------------------------------------------------------------------
// Scraped Prometheus text.
// ---------------------------------------------------------------------
/// The position of the last white-space char among the first `n` chars of `s`.
pub open spec fn last_white_space_upto(s: Seq<char>, n: int) -> Option<int>
    decreases n,
{
    if n <= 0 {
        None
    } else if is_white_space(s[n - 1]) {
        Some(n - 1)
    } else {
        last_white_space_upto(s, n - 1)
    }
}

proof fn lemma_last_white_space_upto(s: Seq<char>, n: int)
    requires
        n <= s.len(),
    ensures
        last_white_space_upto(s, n) matches Some(k) ==> 0 <= k < n && is_white_space(s[k]),
    decreases n,
{
    if n > 0 && !is_white_space(s[n - 1]) {
        lemma_last_white_space_upto(s, n - 1);
    }
}

/// The position of the last white-space char of `s`.
pub open spec fn last_white_space(s: Seq<char>) -> Option<int> {
    last_white_space_upto(s, s.len() as int)
}

/// The part of `s` before its first `{` (all of `s` when there is none).
pub open spec fn before_brace(s: Seq<char>) -> Seq<char> {
    match first_occurrence(s, seq!['{']) {
        Some(i) => s.take(i),
        None => s,
    }
}

/// The metric name and the value text of one line of Prometheus text: the
/// trimmed line split at its last white space, the name without its labels
/// and trimmed. None for an empty line, a comment, a line without white
/// space or an empty name.
pub open spec fn prom_line_candidate(line: Seq<char>) -> Option<(Seq<char>, Seq<char>)> {
    let t = trim(line);
    if t.len() == 0 || t[0] == '#' {
        None
    } else {
        match last_white_space(t) {
            None => None,
            Some(k) => {
                let name = trim(before_brace(t.take(k)));
                if name.len() == 0 {
                    None
                } else {
                    Some((name, t.skip(k + 1)))
                }
            },
        }
    }
}

/// The candidates of lines, in order.
pub open spec fn candidates_in(ls: Seq<Seq<char>>) -> Seq<(Seq<char>, Seq<char>)>
    decreases ls.len(),
{
    if ls.len() == 0 {
        seq![]
    } else {
        let rest = candidates_in(ls.drop_last());
        match prom_line_candidate(ls.last()) {
            Some(c) => rest.push(c),
            None => rest,
        }
    }
}

/// The (metric name, value text) of every sample line of a scraped body, in
/// order.
pub open spec fn spec_prom_candidates(body: Seq<char>) -> Seq<(Seq<char>, Seq<char>)> {
    candidates_in(lines(body))
}

fn last_white_space_exec(s: &Vec<char>) -> (r: Option<usize>)
    ensures
        r matches Some(k) ==> last_white_space(s@) == Some(k as int),
        r is None ==> last_white_space(s@) is None,
{
    let mut i = s.len();
    while i > 0
        invariant
            i <= s@.len(),
            last_white_space(s@) == last_white_space_upto(s@, i as int),
        decreases i,
    {
        if char_is_whitespace(s[i - 1]) {
            return Some(i - 1);
        }
        i = i - 1;
    }
    None
}

fn chars_prefix(s: &Vec<char>, n: usize) -> (r: Vec<char>)
    requires
        n <= s.len(),
    ensures
        r@ == s@.take(n as int),
{
    let mut out: Vec<char> = Vec::new();
    let mut i: usize = 0;
    while i < n
        invariant
            i <= n <= s@.len(),
            out@ == s@.take(i as int),
        decreases n - i,
    {
        out.push(s[i]);
        assert(s@.take(i + 1) =~= s@.take(i as int).push(s@[i as int]));
        i = i + 1;
    }
    out
}

fn prom_line(line: &String) -> (r: Option<(String, String)>)
    ensures
        r matches Some(p) ==> prom_line_candidate(line@) == Some((p.0@, p.1@)),
        r is None ==> prom_line_candidate(line@) is None,
{
    let t = trim_chars(&chars_of(line.as_str()));
    if t.len() == 0 || t[0] == '#' {
        return None;
    }
    let found = last_white_space_exec(&t);
    proof {
        lemma_last_white_space_upto(t@, t@.len() as int);
    }
    match found {
        None => None,
        Some(k) => {
            let head = chars_prefix(&t, k);
            let brace = vec!['{'];
            assert(brace@ =~= seq!['{']);
            let bare = match find(&head, &brace) {
                Some(b) => {
                    proof {
                        lemma_first_occurrence_from(head@, brace@, 0);
                    }
                    chars_prefix(&head, b)
                },
                None => head,
            };
            let name = trim_chars(&bare);
            if name.len() == 0 {
                None
            } else {
                let value = string_of_range(&t, k + 1, t.len());
                assert(t@.subrange(k + 1, t@.len() as int) =~= t@.skip(k + 1));
                Some((string_of(&name), value))
            }
        },
    }
}

/// The (metric name, value text) of every sample line of a scraped
/// Prometheus body, in order: blank lines and comments are skipped, the value
/// is what follows the last white space, and the name loses its labels.
pub fn prom_candidates(body: &str) -> (r: Vec<(String, String)>)
    ensures
        pair_views(r@) == spec_prom_candidates(body@),
{
    let ls = lines_of(&chars_of(body));
    let mut out: Vec<(String, String)> = Vec::new();
    let mut i: usize = 0;
    while i < ls.len()
        invariant
            i <= ls@.len(),
            views(ls@) == lines(body@),
            pair_views(out@) == candidates_in(lines(body@).take(i as int)),
        decreases ls.len() - i,
    {
        let ghost lv = lines(body@);
        proof {
            assert(lv.take(i + 1).drop_last() =~= lv.take(i as int));
            assert(lv.take(i + 1).last() == ls@[i as int]@);
        }
        match prom_line(&ls[i]) {
            Some(p) => {
                let ghost before = out@;
                out.push(p);
                assert(pair_views(out@) =~= pair_views(before).push((p.0@, p.1@)));
            },
            None => {},
        }
        i = i + 1;
    }
    assert(lines(body@).take(ls@.len() as int) =~= lines(body@));
    out
}

/// One entry per name, holding the value of the name's last occurrence.
pub fn keep_last_per_name<V: Copy>(pairs: &Vec<(String, V)>) -> (r: Vec<(String, V)>)
    ensures
        keys_distinct(r@),
        entries_map(r@) == entries_map(pairs@),
{
    let mut table: HostTable<V> = HostTable::new();
    let mut i: usize = 0;
    while i < pairs.len()
        invariant
            i <= pairs@.len(),
            table.wf(),
            table@ == entries_map(pairs@.take(i as int)),
        decreases pairs.len() - i,
    {
        let (name, v) = &pairs[i];
        table.insert(name.clone(), *v);
        proof {
            assert(pairs@.take(i + 1).drop_last() =~= pairs@.take(i as int));
        }
        i = i + 1;
    }
    assert(pairs@.take(pairs@.len() as int) =~= pairs@);
    table.into_entries()
}

} // verus!
