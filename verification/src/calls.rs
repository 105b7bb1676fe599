//! What the calls to the servers carry, and what becomes of their answers.

use vstd::prelude::*;
use crate::rpc::{Action, ResponseStatus, ResponseView};
use crate::rpc_client::{Attempt, RpcStatusAction, SendStep};

verus! {

/// The calls are known to the servers by these names.
pub proof fn actions_have_names()
    ensures
        crate::rpc::action_name(Action::ServerStat) == "server_stat"@,
        crate::rpc::action_name(Action::ClientLogin) == "client_login"@,
        crate::rpc::action_name(Action::ClientSettings) == "client_settings"@,
        crate::rpc::action_name(Action::ClientStart) == "client_start"@,
        crate::rpc::action_name(Action::ClientSuspend) == "client_suspend"@,
        crate::rpc::action_name(Action::ClientResume) == "client_resume"@,
        crate::rpc::action_name(Action::ClientStop) == "client_stop"@,
        crate::rpc::action_name(Action::StillAlive) == "still_alive"@,
        crate::rpc::action_name(Action::GetBlacklist) == "get_blacklist"@,
        crate::rpc::action_name(Action::GetCertificate) == "get_cert"@,
        crate::rpc::action_name(Action::StaticRangeFetch) == "srfetch"@,
        crate::rpc::action_name(Action::GalleryQueueFetch) == "fetchqueue"@,
        crate::rpc::action_name(Action::DownloaderFetch) == "dlfetch"@,
        crate::rpc::action_name(Action::DownloaderFailreport) == "dlfails"@,
        crate::rpc::action_name(Action::Overload) == "overload"@,
{
}

proof fn lemma_hyphen()
    ensures
        vstd::utf8::encode_utf8("-"@) == seq![45u8],
{
    reveal_strlit("-");
    assert("-"@ =~= seq!['-']);
    vstd::utf8::is_ascii_chars_encode_utf8("-"@);
    assert(vstd::utf8::encode_utf8("-"@) =~= seq![45u8]);
}

/// The question for the server's time is not signed. Any other call names the build, the action,
/// what goes with it, the client's number and the time, and is signed with the digest of the
/// action, what goes with it, the client's number, the time and the client's key, with hyphens
/// between them behind a fixed beginning.
pub proof fn queries_are_signed(act: Action, add: Seq<char>, id: u32, time: u64, key: Seq<char>)
    requires
        time <= i64::MAX,
    ensures
        ({
            let name = crate::rpc::action_name(act);
            let n = crate::number::decimal(id as nat);
            let t = crate::number::decimal(time as nat);
            let signed = vstd::utf8::encode_utf8("hentai@home-"@) + vstd::utf8::encode_utf8(name) + seq![45u8]
                + vstd::utf8::encode_utf8(add) + seq![45u8] + vstd::utf8::encode_utf8(n) + seq![45u8]
                + vstd::utf8::encode_utf8(t) + seq![45u8] + vstd::utf8::encode_utf8(key);
            let actkey = crate::utils::hex_text(crate::utils::sha1_digest(signed));
            let query = crate::rpc::rpc_query(act, add, id, time as i64, key);
            &&& act is ServerStat ==> query == "clientbuild=178&act=server_stat"@
            &&& !(act is ServerStat) ==> query == "clientbuild=178&act="@ + name + "&add="@ + add + "&cid="@
                + n + "&acttime="@ + t + "&actkey="@ + actkey
        }),
{
    let name = crate::rpc::action_name(act);
    let n = crate::number::decimal(id as nat);
    let t = crate::number::decimal(time as nat);
    let b = "hentai@home-"@;
    let h = "-"@;
    lemma_hyphen();
    crate::text::lemma_utf8_of_sum(b, name);
    crate::text::lemma_utf8_of_sum(b + name, h);
    crate::text::lemma_utf8_of_sum(b + name + h, add);
    crate::text::lemma_utf8_of_sum(b + name + h + add, h);
    crate::text::lemma_utf8_of_sum(b + name + h + add + h, n);
    crate::text::lemma_utf8_of_sum(b + name + h + add + h + n, h);
    crate::text::lemma_utf8_of_sum(b + name + h + add + h + n + h, t);
    crate::text::lemma_utf8_of_sum(b + name + h + add + h + n + h + t, h);
    crate::text::lemma_utf8_of_sum(b + name + h + add + h + n + h + t + h, key);
    lemma_build();
    reveal_strlit("clientbuild=");
    reveal_strlit("&act=");
    reveal_strlit("clientbuild=178&act=");
    assert("clientbuild=178&act="@ =~= "clientbuild="@ + crate::number::decimal(178) + "&act="@);
    if act is ServerStat {
        reveal_strlit("server_stat");
        reveal_strlit("clientbuild=178&act=server_stat");
        assert("clientbuild=178&act=server_stat"@ =~= "clientbuild=178&act="@ + "server_stat"@);
    }
}

proof fn lemma_build()
    ensures
        crate::number::decimal(178) == seq!['1', '7', '8'],
{
    reveal_with_fuel(crate::number::decimal, 3);
    assert(crate::number::decimal(178) =~= seq!['1', '7', '8']);
}

/// An answer whose first line is OK is a success and carries the lines behind it. One that begins
/// with a word for unavailability is none, any other is a failure, and both carry their first
/// line as the reason; an empty answer is none.
pub proof fn answers_are_read(first: Seq<char>, rest: Seq<Seq<char>>, host: Seq<char>)
    requires
        crate::text::is_line(first),
        forall|i: int| 0 <= i < rest.len() ==> crate::text::is_line(#[trigger] rest[i]),
    ensures
        ({
            let r = crate::rpc::response_of(crate::text::join(seq![first] + rest, seq!['\n']), host);
            &&& first == seq!['O', 'K'] ==> r == (ResponseView {
                status: ResponseStatus::Okay,
                lines: rest,
                fail_code: None,
                fail_host: None,
            })
            &&& first != seq!['O', 'K'] ==> r == (ResponseView {
                status: if "TEMPORARILY_UNAVAILABLE"@.is_prefix_of(first) {
                    ResponseStatus::Null
                } else {
                    ResponseStatus::Fail
                },
                lines: seq![],
                fail_code: Some(first),
                fail_host: Some(host),
            })
        }),
        crate::rpc::response_of(seq![], host) == (ResponseView {
            status: ResponseStatus::Null,
            lines: seq![],
            fail_code: Some("NO_RESPONSE"@),
            fail_host: Some(host),
        }),
{
    let lines = seq![first] + rest;
    assert forall|i: int| 0 <= i < lines.len() implies crate::text::is_line(#[trigger] lines[i]) by {
        if i > 0 {
            assert(lines[i] == rest[i - 1]);
        }
    }
    crate::text::lemma_lines_of_joined(lines);
    reveal_strlit("OK");
    assert("OK"@ =~= seq!['O', 'K']);
    assert(lines.skip(1) =~= rest);
}

/// Of two or more hosts, the random place picks the one there unless it failed last; then the
/// random turn picks the next one on either side.
pub proof fn random_numbers_pick_the_host(
    hosts: Seq<Seq<char>>,
    failed: Option<Seq<char>>,
    place: u32,
    turn: u32,
)
    requires
        hosts.len() > 1,
    ensures
        ({
            let n = hosts.len() as int;
            let i = place as int % n;
            let up = if i + 1 < n {
                i + 1
            } else {
                0
            };
            let down = if i > 0 {
                i - 1
            } else {
                n - 1
            };
            let c = crate::rpc_client::chosen_host(hosts, failed, place, turn);
            &&& failed != Some(hosts[i]) ==> c == Some(hosts[i])
            &&& failed == Some(hosts[i]) && turn % 2 == 1 && hosts[up] != hosts[i] ==> c == Some(hosts[up])
            &&& failed == Some(hosts[i]) && turn % 2 == 0 && hosts[down] != hosts[i] ==> c == Some(
                hosts[down],
            )
        }),
{
    let n = hosts.len() as int;
    let i = place as int % n;
    assert(0 <= i < n);
    vstd::arithmetic::div_mod::lemma_small_mod(i as nat, n as nat);
    if i + 1 < n {
        vstd::arithmetic::div_mod::lemma_small_mod((i + 1) as nat, n as nat);
    } else {
        assert(n % n == 0) by {
            vstd::arithmetic::div_mod::lemma_mod_self_0(n);
        }
    }
    if i > 0 {
        vstd::arithmetic::div_mod::lemma_small_mod((i - 1) as nat, n as nat);
    } else {
        assert(-1 == n * -1 + (n - 1)) by (nonlinear_arith);
        vstd::arithmetic::div_mod::lemma_fundamental_div_mod_converse_mod(-1, n, -1, n - 1);
    }
    reveal_with_fuel(crate::rpc_client::first_other, 3);
}

/// A host that answered and is still among the servers stays the host of the next call, whatever
/// the random numbers are, unless it was the last to fail; where there is one server it is the
/// host, and where there is none the usual one.
pub proof fn hosts_stay(
    router: crate::rpc_client::RpcRouter,
    hosts: Seq<Seq<char>>,
    host: Seq<char>,
    place: u32,
    turn: u32,
)
    ensures
        router.current() == Some(host) && hosts.contains(host) && router.last_failed() != Some(host)
            ==> router.selected(hosts, place, turn) == Some(host),
        router.current() is None && hosts == seq![host] ==> router.selected(hosts, place, turn) == Some(host),
        router.current() is None && hosts.len() == 0 ==> router.selected(hosts, place, turn) == Some(
            "rpc.hentaiathome.net"@,
        ),
{
}

/// A body that was read ends a request, and so does the status not found; after anything else the
/// request is sent again, three times in all.
pub proof fn requests_are_sent_three_times(attempt: u32, status: u16)
    ensures
        crate::rpc_client::step_after(attempt, Attempt::Body) == SendStep::Done,
        crate::rpc_client::step_after(attempt, Attempt::Status(404)) == SendStep::GiveUp,
        status != 404 ==> crate::rpc_client::step_after(attempt, Attempt::Status(status)) == (if attempt < 2 {
            SendStep::SendAgain
        } else {
            SendStep::GiveUp
        }),
        crate::rpc_client::step_after(attempt, Attempt::Broken) == (if attempt < 2 {
            SendStep::SendAgain
        } else {
            SendStep::GiveUp
        }),
        crate::rpc_client::status_action(status) == RpcStatusAction::Abort <==> status == 404,
        crate::rpc_client::status_action(status) == RpcStatusAction::Retry <==> 400 <= status <= 599
            && status != 404,
{
}

/// The calls on the client's own state are made once more where the key has expired; no other
/// call is, and none for another reason.
pub proof fn expired_keys_are_renewed(act: Action, r: ResponseView)
    ensures
        crate::rpc_client::is_retried(act, 0, r) <==> r.fail_code == Some("KEY_EXPIRED"@) && (act
            == Action::ClientLogin || act == Action::ClientSettings || act == Action::ClientStart || act
            == Action::ClientSuspend || act == Action::ClientResume || act == Action::ClientStop || act
            == Action::Overload),
{
}

/// The source of a gallery file is the first line of a good answer that is not empty.
pub proof fn first_lines_are_named(lines: Seq<Seq<char>>, i: int)
    requires
        0 <= i <= lines.len(),
        forall|j: int| 0 <= j < i ==> (#[trigger] lines[j]).len() == 0,
        i < lines.len() ==> lines[i].len() > 0,
    ensures
        crate::rpc_client::first_line(lines) == (if i < lines.len() {
            Some(lines[i])
        } else {
            None
        }),
    decreases lines.len(),
{
    if i > 0 {
        let less = lines.skip(1);
        assert(lines[0].len() == 0);
        assert forall|j: int| 0 <= j < i - 1 implies (#[trigger] less[j]).len() == 0 by {
            assert(less[j] == lines[j + 1]);
        }
        first_lines_are_named(less, i - 1);
    }
}

/// A failed call is blamed on the host that its answer names; only an answer that names none is
/// blamed on the host that was called.
pub proof fn named_hosts_are_blamed(r: crate::rpc::ResponseView, host: Seq<char>, called: Seq<char>)
    ensures
        crate::rpc_client::blamed_host(
            crate::rpc::ResponseView { fail_host: Some(host), ..r },
            called,
        ) == host,
        crate::rpc_client::blamed_host(crate::rpc::ResponseView { fail_host: None, ..r }, called)
            == called,
{
}

/// The source of a gallery file comes from a good answer alone: it is its first line that is not
/// empty. A refused call tells the code of the refusal, and a good answer without a line is an error
/// too.
pub proof fn good_answers_name_a_source(r: crate::rpc::ResponseView, code: Seq<char>, i: int)
    requires
        0 <= i <= r.lines.len(),
        forall|j: int| 0 <= j < i ==> (#[trigger] r.lines[j]).len() == 0,
        i < r.lines.len() ==> r.lines[i].len() > 0,
    ensures
        ({
            let n = crate::rpc_client::named_source(r);
            &&& r.status == ResponseStatus::Okay && i < r.lines.len() ==> n == Ok::<
                Seq<char>,
                crate::error::ErrorView,
            >(r.lines[i])
            &&& r.status == ResponseStatus::Okay && i == r.lines.len() ==> n == Err::<
                Seq<char>,
                crate::error::ErrorView,
            >(crate::error::ErrorView::Rpc("dlfetch returned no URL"@))
            &&& r.status != ResponseStatus::Okay && r.fail_code == Some(code) ==> n == Err::<
                Seq<char>,
                crate::error::ErrorView,
            >(crate::error::ErrorView::Rpc("dlfetch failed: "@ + code))
            &&& r.status != ResponseStatus::Okay && r.fail_code is None ==> n == Err::<
                Seq<char>,
                crate::error::ErrorView,
            >(crate::error::ErrorView::Rpc("dlfetch failed: "@))
        }),
{
    first_lines_are_named(r.lines, i);
    assert("dlfetch failed: "@ + seq![] =~= "dlfetch failed: "@);
}

/// The port of a call stands in its URL unless it is 80.
pub proof fn other_ports_stand_in_urls(port: u16)
    ensures
        crate::rpc::port_in_url(port) is None <==> port == 80,
        port != 80 ==> crate::rpc::port_in_url(port) == Some(port),
{
}

/// The hosts of the servers are their addresses in the order of the servers.
pub proof fn servers_are_hosts(servers: Seq<crate::ip::IpView>, i: int)
    requires
        0 <= i < servers.len(),
    ensures
        crate::rpc::hosts_of(servers).len() == servers.len(),
        crate::rpc::hosts_of(servers)[i] == crate::ip::ip_text(servers[i]),
{
}

} // verus!
