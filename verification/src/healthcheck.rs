//! URLs of the pings that report the client's health to a healthchecks
//! service: `<base>/<uuid>` for success, and `/start`, `/stop` or `/fail`
//! behind it for the other signals.

use vstd::prelude::*;

verus! {

/// `s` without the `'/'` characters at its end.
pub open spec fn trim_end_slashes(s: Seq<char>) -> Seq<char>
    decreases s.len(),
{
    if s.len() > 0 && s.last() == '/' {
        trim_end_slashes(s.drop_last())
    } else {
        s
    }
}

/// Trimming keeps a prefix of `s`, drops only slashes, and leaves no slash at
/// the end: it is what `str::trim_end_matches('/')` gives.
pub proof fn lemma_trim_end_slashes(s: Seq<char>)
    ensures
        trim_end_slashes(s).len() <= s.len(),
        trim_end_slashes(s) == s.take(trim_end_slashes(s).len() as int),
        forall|i: int| trim_end_slashes(s).len() <= i < s.len() ==> s[i] == '/',
        trim_end_slashes(s).len() == 0 || trim_end_slashes(s).last() != '/',
    decreases s.len(),
{
    if s.len() > 0 && s.last() == '/' {
        lemma_trim_end_slashes(s.drop_last());
        let t = trim_end_slashes(s.drop_last());
        assert(s.drop_last().take(t.len() as int) =~= s.take(t.len() as int));
        assert forall|i: int| t.len() <= i < s.len() implies s[i] == '/' by {
            if i < s.len() - 1 {
                assert(s[i] == s.drop_last()[i]);
            }
        }
    } else {
        assert(s.take(s.len() as int) =~= s);
    }
}

/// Slashes appended to a base URL do not change the trimmed base.
pub proof fn lemma_trim_ignores_added_slashes(s: Seq<char>, n: nat)
    ensures
        trim_end_slashes(s + Seq::new(n, |i: int| '/')) == trim_end_slashes(s),
    decreases n,
{
    if n > 0 {
        let longer = s + Seq::new(n, |i: int| '/');
        let shorter = s + Seq::new((n - 1) as nat, |i: int| '/');
        assert(longer.drop_last() =~= shorter);
        lemma_trim_ignores_added_slashes(s, (n - 1) as nat);
    } else {
        assert(s + Seq::new(n, |i: int| '/') =~= s);
    }
}

/// The signals a healthcheck client sends.
#[derive(Clone, Copy, Debug, PartialEq, Eq, Structural)]
pub enum HealthPing {
    Success,
    Start,
    Stop,
    Fail,
}

/// What follows `<base>/<uuid>` in the URL of `ping`.
pub open spec fn ping_suffix(ping: HealthPing) -> Seq<char> {
    match ping {
        HealthPing::Success => Seq::<char>::empty(),
        HealthPing::Start => "/start"@,
        HealthPing::Stop => "/stop"@,
        HealthPing::Fail => "/fail"@,
    }
}

impl HealthPing {
    /// The ping of a periodic check: success when the service is healthy,
    /// else fail.
    pub fn for_health(healthy: bool) -> (p: HealthPing)
        ensures
            p == (if healthy { HealthPing::Success } else { HealthPing::Fail }),
    {
        if healthy {
            HealthPing::Success
        } else {
            HealthPing::Fail
        }
    }
}

/// Where a check with id `uuid` reports to a healthchecks service at
/// `base_url`.
#[allow(non_camel_case_types)]
pub struct healthcheck_client {
    base_url: String,
    uuid: String,
}

impl healthcheck_client {
    /// The service's base URL, without trailing slashes.
    pub closed spec fn base(&self) -> Seq<char> {
        self.base_url@
    }

    /// The check's id.
    pub closed spec fn check_id(&self) -> Seq<char> {
        self.uuid@
    }

    /// The URL of `ping`: `<base>/<uuid>` followed by the ping's suffix.
    pub open spec fn url_of(&self, ping: HealthPing) -> Seq<char> {
        self.base() + "/"@ + self.check_id() + ping_suffix(ping)
    }

    /// A client for the check `uuid` at `base_url`; slashes at the end of
    /// `base_url` are dropped.
    pub fn new(base_url: &str, uuid: &str) -> (c: Self)
        ensures
            c.base() == trim_end_slashes(base_url@),
            c.check_id() == uuid@,
            c.base() == base_url@.take(c.base().len() as int),
            forall|i: int| c.base().len() <= i < base_url@.len() ==> base_url@[i] == '/',
            c.base().len() == 0 || c.base().last() != '/',
    {
        proof {
            lemma_trim_end_slashes(base_url@);
        }
        let mut k = base_url.unicode_len();
        assert(base_url@.take(k as int) =~= base_url@);
        while k > 0
            invariant
                k <= base_url@.len(),
                trim_end_slashes(base_url@) == trim_end_slashes(base_url@.take(k as int)),
            ensures
                trim_end_slashes(base_url@) == base_url@.take(k as int),
            decreases k,
        {
            let c = base_url.get_char(k - 1);
            if c != '/' {
                assert(trim_end_slashes(base_url@.take(k as int)) == base_url@.take(k as int));
                break;
            }
            assert(base_url@.take(k as int).drop_last() =~= base_url@.take(k - 1));
            k = k - 1;
        }
        let trimmed = base_url.substring_char(0, k);
        healthcheck_client { base_url: String::from_str(trimmed), uuid: String::from_str(uuid) }
    }

    /// The URL that `ping` is sent to.
    pub fn url(&self, ping: HealthPing) -> (u: String)
        ensures
            u@ == self.url_of(ping),
            ping == HealthPing::Success ==> u@ == self.base() + "/"@ + self.check_id(),
            ping == HealthPing::Start ==> u@ == self.base() + "/"@ + self.check_id() + "/start"@,
            ping == HealthPing::Stop ==> u@ == self.base() + "/"@ + self.check_id() + "/stop"@,
            ping == HealthPing::Fail ==> u@ == self.base() + "/"@ + self.check_id() + "/fail"@,
    {
        proof {
            reveal_strlit("/");
            reveal_strlit("/start");
            reveal_strlit("/stop");
            reveal_strlit("/fail");
        }
        let head = self.base_url.clone().concat("/").concat(self.uuid.as_str());
        match ping {
            HealthPing::Success => {
                assert(head@ =~= self.url_of(ping));
                head
            },
            HealthPing::Start => head.concat("/start"),
            HealthPing::Stop => head.concat("/stop"),
            HealthPing::Fail => head.concat("/fail"),
        }
    }
}

/// A ping URL is the base, one '/', the whole check id (whatever its
/// length), and then nothing for a success ping or "/start", "/stop" or
/// "/fail".
pub proof fn lemma_url_layout(c: healthcheck_client, ping: HealthPing)
    ensures
        c.url_of(ping).len() == c.base().len() + 1 + c.check_id().len() + ping_suffix(ping).len(),
        c.url_of(ping).take(c.base().len() as int) == c.base(),
        c.url_of(ping)[c.base().len() as int] == '/',
        c.url_of(ping).subrange(
            (c.base().len() + 1) as int,
            (c.base().len() + 1 + c.check_id().len()) as int,
        ) == c.check_id(),
        ping == HealthPing::Success ==> c.url_of(ping).len() == c.base().len() + 1
            + c.check_id().len(),
        ping == HealthPing::Start ==> c.url_of(ping).skip(
            (c.base().len() + 1 + c.check_id().len()) as int,
        ) == "/start"@,
        ping == HealthPing::Stop ==> c.url_of(ping).skip(
            (c.base().len() + 1 + c.check_id().len()) as int,
        ) == "/stop"@,
        ping == HealthPing::Fail ==> c.url_of(ping).skip(
            (c.base().len() + 1 + c.check_id().len()) as int,
        ) == "/fail"@,
{
    reveal_strlit("/");
    let u = c.url_of(ping);
    let b = c.base().len() as int;
    let n = c.check_id().len() as int;
    assert(u.take(b) =~= c.base());
    assert(u.subrange(b + 1, b + 1 + n) =~= c.check_id());
    assert(u.skip(b + 1 + n) =~= ping_suffix(ping));
}

} // verus!
