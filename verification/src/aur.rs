//! Decision logic of the AUR RPC client: request batching, query URL
//! composition, retry backoff, self-throttling, and assembly of the
//! fetched version records.
//!
//! The client turns a list of package names into a name → version/size
//! mapping. Network transport is the host's job; every policy decision
//! the transport loop takes — how names are split into batches, what URL
//! a batch queries, whether a failed batch is retried and after what
//! delay, how long to pace after a response — is computed here under
//! contract.

use vstd::arithmetic::power::lemma_pow_increases;
use vstd::arithmetic::power2::{lemma2_to64, lemma_pow2, pow2};
use vstd::prelude::*;

use crate::package_info::VersionInfo;
use crate::pacman::{contains_name, name_views};
use crate::version_map::VersionMap;

verus! {

/// `s` without its trailing `'/'` characters.
pub open spec fn trimmed_slashes(s: Seq<char>) -> Seq<char>
    decreases s.len(),
{
    if s.len() > 0 && s.last() == '/' {
        trimmed_slashes(s.drop_last())
    } else {
        s
    }
}

/// Strip every trailing `'/'` from `s`.
fn trim_trailing_slashes(s: &str) -> (r: String)
    ensures
        r@ == trimmed_slashes(s@),
{
    let n = s.unicode_len();
    proof {
        assert(s@.subrange(0, n as int) =~= s@);
    }
    let mut i: usize = n;
    while i > 0 && s.get_char(i - 1) == '/'
        invariant
            i <= n,
            n == s@.len(),
            trimmed_slashes(s@) == trimmed_slashes(s@.subrange(0, i as int)),
        decreases i,
    {
        proof {
            assert(s@.subrange(0, i as int).drop_last() == s@.subrange(0, i - 1));
        }
        i -= 1;
    }
    proof {
        assert(s@.subrange(0, i as int) == trimmed_slashes(s@.subrange(0, i as int)));
    }
    s.substring_char(0, i).to_owned()
}

/// Tuning parameters of the AUR client, normalised at construction.
///
/// Batch size, retry count, and parallelism are clamped to a floor of 1
/// rather than rejected; a throttle of 0 KiB/s disables pacing.
pub struct AurSettings {
    /// RPC endpoint, kept free of trailing slashes.
    pub base_url: String,
    /// Largest number of names submitted in one query.
    pub max_args: usize,
    /// Largest number of attempts per batch on non-success status.
    pub max_retries: usize,
    /// Largest number of batches in flight at once.
    pub max_parallel_requests: usize,
    /// Self-throttle cap; 0 disables pacing.
    pub max_kib_per_sec: u64,
    /// Transport timeout handed to the host's HTTP client.
    pub timeout_secs: u64,
}

impl AurSettings {
    /// Normalise raw configuration values.
    pub fn new(
        base_url: &str,
        timeout_secs: u64,
        max_args: usize,
        max_retries: usize,
        max_parallel_requests: usize,
        max_kib_per_sec: u64,
    ) -> (r: Self)
        ensures
            r.base_url@ == trimmed_slashes(base_url@),
            r.max_args == if max_args >= 1 { max_args } else { 1 },
            r.max_retries == if max_retries >= 1 { max_retries } else { 1 },
            r.max_parallel_requests == if max_parallel_requests >= 1 {
                max_parallel_requests
            } else {
                1
            },
            r.max_kib_per_sec == max_kib_per_sec,
            r.timeout_secs == timeout_secs,
    {
        AurSettings {
            base_url: trim_trailing_slashes(base_url),
            max_args: if max_args >= 1 { max_args } else { 1 },
            max_retries: if max_retries >= 1 { max_retries } else { 1 },
            max_parallel_requests: if max_parallel_requests >= 1 {
                max_parallel_requests
            } else {
                1
            },
            max_kib_per_sec,
            timeout_secs,
        }
    }
}

/// Product of `a` and `b`, saturating at the largest `u64`.
pub open spec fn sat_mul(a: u64, b: u64) -> u64 {
    if a * b > u64::MAX {
        u64::MAX
    } else {
        (a * b) as u64
    }
}

/// Sum of `a` and `b`, saturating at the largest `u64`.
pub open spec fn sat_add(a: u64, b: u64) -> u64 {
    if a + b > u64::MAX {
        u64::MAX
    } else {
        (a + b) as u64
    }
}

fn saturating_mul_u64(a: u64, b: u64) -> (r: u64)
    ensures
        r == sat_mul(a, b),
{
    match a.checked_mul(b) {
        Some(v) => v,
        None => u64::MAX,
    }
}

/// The pacing delay owed after transferring `bytes` under a cap of
/// `kib_per_sec`: the ceiling of `bytes * 1000 / (kib_per_sec * 1024)`
/// milliseconds, computed with saturating arithmetic, with `None` both
/// when the cap is 0 (pacing disabled) and when the delay rounds to
/// nothing.
pub open spec fn throttle_delay_spec(bytes: u64, kib_per_sec: u64) -> Option<u64> {
    if kib_per_sec == 0 {
        None
    } else {
        let denominator = sat_mul(kib_per_sec, 1024);
        let millis = sat_add(sat_mul(bytes, 1000), (denominator - 1) as u64) as int / denominator
            as int;
        if millis == 0 {
            None
        } else {
            Some(millis as u64)
        }
    }
}

/// How long to pause after moving `bytes` so that sequential transfers
/// average at most `kib_per_sec` KiB per second.
pub fn throttle_delay(bytes: u64, kib_per_sec: u64) -> (r: Option<u64>)
    ensures
        r == throttle_delay_spec(bytes, kib_per_sec),
{
    if kib_per_sec == 0 {
        return None;
    }
    let denominator = saturating_mul_u64(kib_per_sec, 1024);
    if denominator == 0 {
        return None;
    }
    let millis = saturating_mul_u64(bytes, 1000).saturating_add(denominator - 1) / denominator;
    if millis == 0 {
        None
    } else {
        Some(millis)
    }
}

/// The delay owed after a response: pacing applies only when a cap is
/// configured and the response's payload size is known.
pub open spec fn rate_limit_delay_spec(content_length: Option<u64>, max_kib_per_sec: u64) -> Option<
    u64,
> {
    if max_kib_per_sec == 0 {
        None
    } else {
        match content_length {
            Some(bytes) => throttle_delay_spec(bytes, max_kib_per_sec),
            None => None,
        }
    }
}

/// How long the client must sleep before handing a response on.
pub fn rate_limit_delay(content_length: Option<u64>, max_kib_per_sec: u64) -> (r: Option<u64>)
    ensures
        r == rate_limit_delay_spec(content_length, max_kib_per_sec),
{
    if max_kib_per_sec == 0 {
        return None;
    }
    match content_length {
        Some(bytes) => throttle_delay(bytes, max_kib_per_sec),
        None => None,
    }
}

/// The retry exponent grows with the attempt count but stops doubling at
/// the 8th attempt.
pub open spec fn capped_exponent(attempt: nat) -> nat {
    if attempt >= 8 {
        8
    } else {
        attempt
    }
}

/// Backoff before retry attempt number `attempt`: 200ms doubled once per
/// earlier attempt, capped at the 8th doubling.
pub open spec fn backoff_millis(attempt: nat) -> nat {
    200 * pow2(capped_exponent(attempt))
}

/// Backoff delays never shrink from one attempt to the next and never
/// exceed `200 * 2^8` milliseconds.
pub proof fn lemma_backoff_monotone_bounded(a: nat, b: nat)
    requires
        a <= b,
    ensures
        backoff_millis(a) <= backoff_millis(b),
        backoff_millis(b) <= 200 * pow2(8),
{
    lemma_pow2(capped_exponent(a));
    lemma_pow2(capped_exponent(b));
    lemma_pow2(8);
    lemma_pow_increases(2, capped_exponent(a), capped_exponent(b));
    lemma_pow_increases(2, capped_exponent(b), 8);
}

/// Compute the backoff delay in milliseconds before retry `attempt`.
pub fn backoff_delay_ms(attempt: usize) -> (r: u64)
    ensures
        r == backoff_millis(attempt as nat),
{
    let exponent: usize = if attempt < 8 {
        attempt
    } else {
        8
    };
    proof {
        lemma2_to64();
    }
    let factor: u64 = match exponent {
        0 => 1,
        1 => 2,
        2 => 4,
        3 => 8,
        4 => 16,
        5 => 32,
        6 => 64,
        7 => 128,
        _ => 256,
    };
    200 * factor
}

/// What `urlencoding::encode` returns for the given characters.
pub uninterp spec fn url_encoded(s: Seq<char>) -> Seq<char>;

/// Relies on urlencoding::encode: percent-encodes every byte except
/// ASCII alphanumerics and `-`, `_`, `.`, `~`. The result is a function
/// of the input characters alone, and an empty input stays empty.
#[verifier::external_body]
fn encode_component(s: &str) -> (r: String)
    ensures
        r@ == url_encoded(s@),
        s@.len() == 0 ==> r@.len() == 0,
{
    urlencoding::encode(s).into_owned()
}

/// The query-string arguments for the given names: one urlencoded
/// `&arg[]=` parameter per name, in order.
pub open spec fn arg_suffix(ns: Seq<Seq<char>>) -> Seq<char>
    decreases ns.len(),
{
    if ns.len() == 0 {
        Seq::empty()
    } else {
        arg_suffix(ns.drop_last()) + "&arg[]="@ + url_encoded(ns.last())
    }
}

/// The info query URL for one batch: the endpoint, the fixed protocol
/// parameters, then one `arg[]` parameter per requested name.
pub open spec fn compose_url_spec(base: Seq<char>, ns: Seq<Seq<char>>) -> Seq<char> {
    base + "?v=5&type=info"@ + arg_suffix(ns)
}

impl AurSettings {
    /// Build the query URL submitting `packages` as one batch.
    pub fn compose_url(&self, packages: &Vec<String>) -> (r: String)
        ensures
            r@ == compose_url_spec(self.base_url@, name_views(packages@)),
    {
        let mut url = self.base_url.clone();
        url.append("?v=5&type=info");
        let mut i: usize = 0;
        while i < packages.len()
            invariant
                i <= packages@.len(),
                url@ == compose_url_spec(self.base_url@, name_views(packages@).take(i as int)),
            decreases packages@.len() - i,
        {
            let ghost names = name_views(packages@);
            url.append("&arg[]=");
            let enc = encode_component(packages[i].as_str());
            url.append(enc.as_str());
            proof {
                assert(names.take(i + 1).drop_last() == names.take(i as int));
                assert(names.take(i + 1).last() == packages@[i as int]@);
                assert(url@ =~= compose_url_spec(self.base_url@, names.take(i + 1)));
            }
            i += 1;
        }
        proof {
            assert(name_views(packages@).take(packages@.len() as int) == name_views(packages@));
        }
        url
    }
}

/// Whether `pat` occurs in `s` starting at position `i`.
pub open spec fn is_match_at(s: Seq<char>, pat: Seq<char>, i: int) -> bool {
    0 <= i && i + pat.len() <= s.len() && s.subrange(i, i + pat.len() as int) == pat
}

/// Whether `s` starts with `p`.
pub open spec fn has_prefix(s: Seq<char>, p: Seq<char>) -> bool {
    is_match_at(s, p, 0)
}

fn match_at(s: &str, pat: &str, i: usize) -> (r: bool)
    requires
        i + pat@.len() <= s@.len(),
    ensures
        r == is_match_at(s@, pat@, i as int),
{
    let m = pat.unicode_len();
    let n = s.unicode_len();
    let mut k: usize = 0;
    while k < m
        invariant
            k <= m,
            m == pat@.len(),
            n == s@.len(),
            i + m <= n,
            forall|t: int| 0 <= t < k ==> s@[i + t] == pat@[t],
        decreases m - k,
    {
        if s.get_char(i + k) != pat.get_char(k) {
            proof {
                assert(s@.subrange(i as int, i + m as int)[k as int] == s@[i + k]);
            }
            return false;
        }
        k += 1;
    }
    proof {
        assert(s@.subrange(i as int, i + m as int) =~= pat@);
    }
    true
}

fn str_has_prefix(s: &str, p: &str) -> (r: bool)
    ensures
        r == has_prefix(s@, p@),
{
    if p.unicode_len() > s.unicode_len() {
        false
    } else {
        match_at(s, p, 0)
    }
}

/// The last position at or before `i` where `pat` occurs in `s`.
pub open spec fn rfind_from(s: Seq<char>, pat: Seq<char>, i: int) -> Option<int>
    decreases i + 1,
{
    if i < 0 {
        None
    } else if is_match_at(s, pat, i) {
        Some(i)
    } else {
        rfind_from(s, pat, i - 1)
    }
}

/// The last position where `pat` occurs in `s`.
pub open spec fn rfind_spec(s: Seq<char>, pat: Seq<char>) -> Option<int> {
    if pat.len() > s.len() {
        None
    } else {
        rfind_from(s, pat, s.len() - pat.len())
    }
}

fn rfind(s: &str, pat: &str) -> (r: Option<usize>)
    requires
        pat@.len() >= 1,
    ensures
        match r {
            Some(v) => rfind_spec(s@, pat@) == Some(v as int) && is_match_at(s@, pat@, v as int),
            None => rfind_spec(s@, pat@) is None,
        },
{
    let n = s.unicode_len();
    let m = pat.unicode_len();
    if m > n {
        return None;
    }
    let last = n - m;
    let mut best: Option<usize> = None;
    let mut i: usize = 0;
    while i <= last
        invariant
            i <= last + 1,
            last == n - m,
            1 <= m <= n,
            m == pat@.len(),
            n == s@.len(),
            match best {
                Some(v) => rfind_from(s@, pat@, i - 1) == Some(v as int) && is_match_at(
                    s@,
                    pat@,
                    v as int,
                ),
                None => rfind_from(s@, pat@, i - 1) is None,
            },
        decreases last + 1 - i,
    {
        if match_at(s, pat, i) {
            best = Some(i);
        }
        i += 1;
    }
    best
}

/// The host root for archive probes: the endpoint with trailing slashes
/// and everything from its last `/rpc` segment on removed.
pub open spec fn base_root_spec(base: Seq<char>) -> Seq<char> {
    let t = trimmed_slashes(base);
    match rfind_spec(t, "/rpc"@) {
        Some(idx) => t.subrange(0, idx),
        None => t,
    }
}

/// Where the client probes for an archive's size: the entry's own path
/// when it is already absolute, otherwise the path appended to the host
/// root.
pub open spec fn probe_url_spec(base: Seq<char>, path: Seq<char>) -> Seq<char> {
    if has_prefix(path, "http://"@) || has_prefix(path, "https://"@) {
        path
    } else {
        base_root_spec(base) + path
    }
}

impl AurSettings {
    /// Derive the host root for archive size probes from the RPC
    /// endpoint.
    pub fn aur_base_url(&self) -> (r: String)
        ensures
            r@ == base_root_spec(self.base_url@),
    {
        let base = trim_trailing_slashes(self.base_url.as_str());
        proof {
            reveal_strlit("/rpc");
        }
        match rfind(base.as_str(), "/rpc") {
            Some(idx) => base.as_str().substring_char(0, idx).to_owned(),
            None => base,
        }
    }

    /// The URL of the size-only probe for an entry's archive path.
    pub fn probe_url(&self, path: &str) -> (r: String)
        ensures
            r@ == probe_url_spec(self.base_url@, path@),
    {
        if str_has_prefix(path, "http://") || str_has_prefix(path, "https://") {
            path.to_owned()
        } else {
            let mut url = self.aur_base_url();
            url.append(path);
            url
        }
    }
}

/// The names of all batches laid end to end.
pub open spec fn batches_flat(bs: Seq<Vec<String>>) -> Seq<String> {
    bs.map_values(|b: Vec<String>| b@).flatten()
}

/// The batches as sequences of name views.
pub open spec fn batch_views(bs: Seq<Vec<String>>) -> Seq<Seq<Seq<char>>> {
    bs.map_values(|b: Vec<String>| name_views(b@))
}

/// Split the requested names into ordered batches of at most
/// `max_batch` names: laid end to end the batches give back exactly the
/// input, every batch is non-empty and within the size limit, and every
/// batch but the last is full.
pub fn make_batches(names: &Vec<String>, max_batch: usize) -> (r: Vec<Vec<String>>)
    requires
        max_batch >= 1,
    ensures
        batches_flat(r@) == names@,
        batch_views(r@).flatten() == name_views(names@),
        forall|i: int| 0 <= i < r@.len() ==> 1 <= #[trigger] r@[i]@.len() <= max_batch,
        forall|i: int| 0 <= i < r@.len() - 1 ==> #[trigger] r@[i]@.len() == max_batch,
{
    broadcast use vstd::seq_lib::group_seq_properties;

    let mut batches: Vec<Vec<String>> = Vec::new();
    let mut cur: Vec<String> = Vec::new();
    let mut i: usize = 0;
    while i < names.len()
        invariant
            i <= names@.len(),
            max_batch >= 1,
            batches_flat(batches@) + cur@ == names@.take(i as int),
            batch_views(batches@).flatten() + name_views(cur@) == name_views(names@.take(i as int)),
            cur@.len() < max_batch,
            forall|j: int| 0 <= j < batches@.len() ==> #[trigger] batches@[j]@.len() == max_batch,
        decreases names@.len() - i,
    {
        let ghost cur_before = cur@;
        cur.push(names[i].clone());
        proof {
            assert(names@.take(i + 1).drop_last() == names@.take(i as int));
            assert(batches_flat(batches@) + cur@ =~= names@.take(i + 1));
            assert(name_views(cur@) =~= name_views(cur_before).push(names@[i as int]@));
            assert(name_views(names@.take(i + 1)) =~= name_views(names@.take(i as int)).push(
                names@[i as int]@));
            assert(batch_views(batches@).flatten() + name_views(cur@) =~= name_views(names@.take(
                i + 1)));
        }
        if cur.len() == max_batch {
            let ghost old_batches = batches@;
            let ghost full = cur@;
            batches.push(cur);
            cur = Vec::new();
            proof {
                assert(batches@.map_values(|b: Vec<String>| b@) =~= old_batches.map_values(
                    |b: Vec<String>| b@).push(full));
                old_batches.map_values(|b: Vec<String>| b@).lemma_flatten_push(full);
                assert(batches_flat(batches@) + cur@ =~= names@.take(i + 1));
                assert(batch_views(batches@) =~= batch_views(old_batches).push(name_views(full)));
                batch_views(old_batches).lemma_flatten_push(name_views(full));
                assert(name_views(cur@) =~= Seq::<Seq<char>>::empty());
                assert(batch_views(batches@).flatten() + name_views(cur@) =~= name_views(
                    names@.take(i + 1)));
            }
        }
        i += 1;
    }
    proof {
        assert(names@.take(names@.len() as int) == names@);
    }
    if cur.len() > 0 {
        let ghost old_batches = batches@;
        let ghost rest = cur@;
        batches.push(cur);
        proof {
            assert(batches@.map_values(|b: Vec<String>| b@) =~= old_batches.map_values(
                |b: Vec<String>| b@).push(rest));
            old_batches.map_values(|b: Vec<String>| b@).lemma_flatten_push(rest);
            assert(batches_flat(batches@) =~= names@);
            assert(batch_views(batches@) =~= batch_views(old_batches).push(name_views(rest)));
            batch_views(old_batches).lemma_flatten_push(name_views(rest));
            assert(batch_views(batches@).flatten() =~= name_views(names@));
        }
    } else {
        proof {
            assert(batches_flat(batches@) =~= names@);
            assert(batch_views(batches@).flatten() =~= name_views(names@));
        }
    }
    batches
}

/// A name occurs in the concatenation of the batches exactly when it
/// occurs in one of them.
proof fn lemma_flatten_membership(bs: Seq<Seq<Seq<char>>>, x: Seq<char>)
    ensures
        bs.flatten().contains(x) <==> exists|i: int|
            0 <= i < bs.len() && #[trigger] bs[i].contains(x),
    decreases bs.len(),
{
    if bs.len() > 0 {
        lemma_flatten_membership(bs.drop_first(), x);
        assert(bs.flatten() == bs.first() + bs.drop_first().flatten());
        if bs.first().contains(x) {
            assert(bs[0].contains(x));
        }
        if exists|i: int| 0 <= i < bs.drop_first().len() && #[trigger] bs.drop_first()[i].contains(
            x,
        ) {
            let i = choose|i: int|
                0 <= i < bs.drop_first().len() && #[trigger] bs.drop_first()[i].contains(x);
            assert(bs[i + 1].contains(x));
        }
        if exists|i: int| 0 <= i < bs.len() && #[trigger] bs[i].contains(x) {
            let i = choose|i: int| 0 <= i < bs.len() && #[trigger] bs[i].contains(x);
            if i == 0 {
                let j = choose|j: int| 0 <= j < bs[0].len() && bs[0][j] == x;
                assert(bs.flatten()[j] == x);
                assert(bs.flatten().contains(x));
            } else {
                assert(bs.drop_first()[i - 1].contains(x));
            }
        }
        if bs.drop_first().flatten().contains(x) {
            let j = choose|j: int|
                0 <= j < bs.drop_first().flatten().len() && bs.drop_first().flatten()[j] == x;
            assert(bs.flatten()[bs.first().len() + j] == x);
        }
    }
}

/// Batching partitions the requested names: a name was requested
/// exactly when some batch carries it, and, the requested names being
/// pairwise distinct, no two batches share a name.
pub proof fn lemma_batches_partition(names: Seq<Seq<char>>, batches: Seq<Seq<Seq<char>>>)
    requires
        batches.flatten() == names,
        names.no_duplicates(),
    ensures
        forall|x: Seq<char>|
            names.contains(x) <==> exists|i: int|
                0 <= i < batches.len() && #[trigger] batches[i].contains(x),
        forall|i: int, j: int|
            0 <= i < j < batches.len() ==> batches[i].to_set().disjoint(batches[j].to_set()),
    decreases batches.len(),
{
    assert forall|x: Seq<char>| names.contains(x) <==> exists|i: int|
        0 <= i < batches.len() && #[trigger] batches[i].contains(x) by {
        lemma_flatten_membership(batches, x);
    }
    if batches.len() > 0 {
        let head = batches.first();
        let tail = batches.drop_first();
        assert(batches.flatten() == head + tail.flatten());
        assert(tail.flatten().no_duplicates()) by {
            assert forall|p: int, q: int|
                0 <= p < tail.flatten().len() && 0 <= q < tail.flatten().len() && p
                    != q implies tail.flatten()[p] != tail.flatten()[q] by {
                assert(names[head.len() + p] == tail.flatten()[p]);
                assert(names[head.len() + q] == tail.flatten()[q]);
            }
        }
        lemma_batches_partition(tail.flatten(), tail);
        assert forall|i: int, j: int|
            0 <= i < j < batches.len() implies batches[i].to_set().disjoint(
            batches[j].to_set()) by {
            if i == 0 {
                assert forall|x: Seq<char>| #[trigger]
                    head.to_set().contains(x) implies !batches[j].to_set().contains(x) by {
                    if batches[j].to_set().contains(x) {
                        let p = choose|p: int| 0 <= p < head.len() && head[p] == x;
                        assert(tail[j - 1].contains(x));
                        lemma_flatten_membership(tail, x);
                        let q = choose|q: int|
                            0 <= q < tail.flatten().len() && tail.flatten()[q] == x;
                        assert(names[p] == x);
                        assert(names[head.len() + q] == x);
                    }
                }
            } else {
                assert(tail[i - 1].to_set().disjoint(tail[j - 1].to_set()));
                assert(batches[i] == tail[i - 1]);
                assert(batches[j] == tail[j - 1]);
            }
        }
    }
}

/// One version record as the AUR RPC reports it, already decoded from
/// the response body.
pub struct AurEntry {
    pub name: String,
    pub version: String,
    /// Relative or absolute path of the package archive, usable for a
    /// size-only probe when no explicit size came along.
    pub url_path: Option<String>,
    pub compressed_size: Option<u64>,
    pub installed_size: Option<u64>,
}

/// The download size recorded for an entry: the explicit compressed
/// size when the response carries one, otherwise whatever a size probe
/// of its archive path recovered, otherwise nothing.
pub open spec fn entry_download_size(e: AurEntry, probed: Option<u64>) -> Option<u64> {
    match (e.compressed_size, e.url_path) {
        (Some(size), _) => Some(size),
        (None, Some(_)) => probed,
        (None, None) => None,
    }
}

/// The version record an entry contributes.
pub open spec fn entry_record(e: AurEntry, probed: Option<u64>) -> VersionInfo {
    VersionInfo {
        version: e.version,
        download_size: entry_download_size(e, probed),
        installed_size: e.installed_size,
    }
}

/// Whether the client should issue a size-only probe for this entry's
/// archive before recording it.
pub fn entry_needs_size_probe(e: &AurEntry) -> (r: bool)
    ensures
        r == (e.compressed_size is None && e.url_path is Some),
{
    match (&e.compressed_size, &e.url_path) {
        (None, Some(_)) => true,
        _ => false,
    }
}

/// The mapping one batch's entries contribute: each requested name to
/// its record, later duplicates overwriting earlier ones; names the
/// batch did not request are left out.
pub open spec fn records_map(
    requested: Seq<Seq<char>>,
    entries: Seq<AurEntry>,
    probed: Seq<Option<u64>>,
) -> Map<Seq<char>, VersionInfo>
    decreases entries.len(),
{
    if entries.len() == 0 {
        Map::empty()
    } else {
        let prev = records_map(requested, entries.drop_last(), probed.drop_last());
        let e = entries.last();
        if requested.contains(e.name@) {
            prev.insert(e.name@, entry_record(e, probed[entries.len() - 1]))
        } else {
            prev
        }
    }
}

/// Turn one batch's decoded entries into its version mapping,
/// keeping only names that this batch requested. `probed[i]` carries
/// the result of the size probe for entry `i`, consulted only where
/// [`entry_download_size`] calls for it.
pub fn chunk_records(requested: &Vec<String>, entries: &Vec<AurEntry>, probed: &Vec<Option<u64>>) -> (r:
    VersionMap)
    requires
        probed@.len() == entries@.len(),
    ensures
        r@ == records_map(name_views(requested@), entries@, probed@),
        forall|k: Seq<char>| r@.contains_key(k) ==> name_views(requested@).contains(k),
{
    let mut out = VersionMap::new();
    let mut i: usize = 0;
    while i < entries.len()
        invariant
            i <= entries@.len(),
            probed@.len() == entries@.len(),
            out@ == records_map(name_views(requested@), entries@.take(i as int), probed@.take(
                i as int,
            )),
            forall|k: Seq<char>| out@.contains_key(k) ==> name_views(requested@).contains(k),
        decreases entries@.len() - i,
    {
        proof {
            assert(entries@.take(i + 1).drop_last() == entries@.take(i as int));
            assert(probed@.take(i + 1).drop_last() == probed@.take(i as int));
            assert(entries@.take(i + 1).last() == entries@[i as int]);
        }
        if contains_name(requested, &entries[i].name) {
            let download = match (entries[i].compressed_size, &entries[i].url_path) {
                (Some(size), _) => Some(size),
                (None, Some(_)) => probed[i],
                (None, None) => None,
            };
            let info = VersionInfo::new(
                entries[i].version.clone(),
                download,
                entries[i].installed_size,
            );
            out.insert(entries[i].name.clone(), info);
        }
        i += 1;
    }
    proof {
        assert(entries@.take(entries@.len() as int) == entries@);
        assert(probed@.take(probed@.len() as int) == probed@);
    }
    out
}

/// The union of the batch mappings, later batches overwriting earlier
/// ones on a shared name.
pub open spec fn merged_views(parts: Seq<Map<Seq<char>, VersionInfo>>) -> Map<Seq<char>, VersionInfo>
    decreases parts.len(),
{
    if parts.len() == 0 {
        Map::empty()
    } else {
        merged_views(parts.drop_last()).union_prefer_right(parts.last())
    }
}

/// Merge the per-batch mappings into the full fetch result.
pub fn merge_chunk_maps(parts: &Vec<VersionMap>) -> (r: VersionMap)
    ensures
        r@ == merged_views(parts@.map_values(|m: VersionMap| m@)),
{
    let mut out = VersionMap::new();
    let mut i: usize = 0;
    while i < parts.len()
        invariant
            i <= parts@.len(),
            out@ == merged_views(parts@.map_values(|m: VersionMap| m@).take(i as int)),
        decreases parts@.len() - i,
    {
        out.extend_from(&parts[i]);
        proof {
            let views = parts@.map_values(|m: VersionMap| m@);
            assert(views.take(i + 1).drop_last() == views.take(i as int));
            assert(views.take(i + 1).last() == views[i as int]);
        }
        i += 1;
    }
    proof {
        let views = parts@.map_values(|m: VersionMap| m@);
        assert(views.take(views.len() as int) == views);
    }
    out
}

/// A name is merged exactly when some batch mapping carries it.
proof fn lemma_merged_views_keys(parts: Seq<Map<Seq<char>, VersionInfo>>, k: Seq<char>)
    ensures
        merged_views(parts).contains_key(k) <==> exists|i: int|
            0 <= i < parts.len() && #[trigger] parts[i].contains_key(k),
    decreases parts.len(),
{
    if parts.len() > 0 {
        lemma_merged_views_keys(parts.drop_last(), k);
        if merged_views(parts).contains_key(k) {
            if parts.last().contains_key(k) {
                assert(parts[parts.len() - 1].contains_key(k));
            } else {
                let i = choose|i: int|
                    0 <= i < parts.drop_last().len() && #[trigger] parts.drop_last()[
                        i].contains_key(k);
                assert(parts[i].contains_key(k));
            }
        }
        if exists|i: int| 0 <= i < parts.len() && #[trigger] parts[i].contains_key(k) {
            let i = choose|i: int| 0 <= i < parts.len() && #[trigger] parts[i].contains_key(k);
            if i < parts.len() - 1 {
                assert(parts.drop_last()[i].contains_key(k));
            }
        }
    }
}

/// Every name in the merged fetch result was requested: the batch
/// mappings keep to their batches, and the batches lay the requested
/// names end to end.
pub proof fn lemma_fetch_keys_requested(
    names: Seq<Seq<char>>,
    batches: Seq<Seq<Seq<char>>>,
    parts: Seq<Map<Seq<char>, VersionInfo>>,
)
    requires
        batches.flatten() == names,
        parts.len() == batches.len(),
        forall|i: int, k: Seq<char>|
            0 <= i < parts.len() && #[trigger] parts[i].contains_key(k) ==> batches[i].contains(k),
    ensures
        forall|k: Seq<char>| merged_views(parts).contains_key(k) ==> names.contains(k),
{
    assert forall|k: Seq<char>| merged_views(parts).contains_key(k) implies names.contains(k) by {
        lemma_merged_views_keys(parts, k);
        let i = choose|i: int| 0 <= i < parts.len() && #[trigger] parts[i].contains_key(k);
        lemma_flatten_membership(batches, k);
    }
}

/// What the client does with a batch after a non-success HTTP status.
#[derive(Debug, Clone, Copy, PartialEq, Eq, Structural)]
pub enum RetryDecision {
    /// Sleep for the given backoff, then send the batch again.
    Retry { delay_ms: u64 },
    /// Retries are exhausted; the batch fails terminally.
    GiveUp,
}

/// Decide the next step for a batch whose request just came back with a
/// non-success status, `attempts_made` attempts having failed before
/// this one. Another attempt is granted while the new failure count
/// stays below `max_retries`, with exponentially growing backoff.
pub fn retry_after_status_failure(attempts_made: usize, max_retries: usize) -> (r: RetryDecision)
    requires
        attempts_made < max_retries,
    ensures
        attempts_made + 1 >= max_retries ==> r == RetryDecision::GiveUp,
        attempts_made + 1 < max_retries ==> r == (RetryDecision::Retry {
            delay_ms: backoff_millis((attempts_made + 1) as nat) as u64,
        }),
{
    let failures = attempts_made + 1;
    if failures >= max_retries {
        RetryDecision::GiveUp
    } else {
        proof {
            lemma2_to64();
            lemma_pow_increases(2, capped_exponent(failures as nat), 8);
            lemma_pow2(capped_exponent(failures as nat));
            lemma_pow2(8);
        }
        RetryDecision::Retry { delay_ms: backoff_delay_ms(failures) }
    }
}

} // verus!
