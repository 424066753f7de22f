//! What the first message of a TLS handshake looks like, and which look is tried
//! next when one no longer gets through.

use crate::text::{
    chars_of, has_part, holds_text, is_white, lower, lower_all, lowered, same_text, starts_with,
    text_of, trim, trimmed, end_trimmed, start_trimmed,
};
use rand::seq::SliceRandom;
use rand::RngCore;
use vstd::prelude::*;
use vstd::string::*;

verus! {

/// Whose first message is imitated.
#[derive(Clone, Copy, Debug, PartialEq, Eq, Structural)]
pub enum TlsFingerprint {
    /// Chrome on a desk.
    Chrome,
    /// Firefox on a desk.
    Firefox,
    /// Safari on a desk.
    Safari,
    /// Safari on a phone.
    IosSafari,
    /// Chrome on a phone.
    AndroidChrome,
    /// Nobody's: made up anew for each connection.
    Randomized,
}

impl TlsFingerprint {
    /// The looks of actual browsers.
    pub const ALL_CONCRETE: [TlsFingerprint; 5] = [
        TlsFingerprint::Chrome,
        TlsFingerprint::Firefox,
        TlsFingerprint::Safari,
        TlsFingerprint::IosSafari,
        TlsFingerprint::AndroidChrome,
    ];

    /// The name in configuration and logs.
    pub open spec fn token(self) -> Seq<char> {
        match self {
            TlsFingerprint::Chrome => "chrome"@,
            TlsFingerprint::Firefox => "firefox"@,
            TlsFingerprint::Safari => "safari"@,
            TlsFingerprint::IosSafari => "ios"@,
            TlsFingerprint::AndroidChrome => "android"@,
            TlsFingerprint::Randomized => "random"@,
        }
    }

    /// The name in configuration and logs.
    pub fn as_str(self) -> (s: &'static str)
        ensures
            s@ == self.token(),
    {
        match self {
            TlsFingerprint::Chrome => "chrome",
            TlsFingerprint::Firefox => "firefox",
            TlsFingerprint::Safari => "safari",
            TlsFingerprint::IosSafari => "ios",
            TlsFingerprint::AndroidChrome => "android",
            TlsFingerprint::Randomized => "random",
        }
    }

    /// The look that a name in small letters stands for.
    pub open spec fn named(t: Seq<char>) -> Option<TlsFingerprint> {
        if t == "chrome"@ {
            Some(TlsFingerprint::Chrome)
        } else if t == "firefox"@ || t == "ff"@ {
            Some(TlsFingerprint::Firefox)
        } else if t == "safari"@ {
            Some(TlsFingerprint::Safari)
        } else if t == "ios"@ || t == "ios_safari"@ || t == "ios-safari"@ {
            Some(TlsFingerprint::IosSafari)
        } else if t == "android"@ || t == "android_chrome"@ || t == "android-chrome"@ {
            Some(TlsFingerprint::AndroidChrome)
        } else if t == "random"@ || t == "randomized"@ || t == "rand"@ {
            Some(TlsFingerprint::Randomized)
        } else {
            None
        }
    }

    /// The look that a name stands for, whatever the case of its letters and the
    /// white space around it.
    pub fn parse(token: &str) -> (r: Option<TlsFingerprint>)
        ensures
            r == Self::named(lowered(trimmed(token@))),
    {
        let chars: Vec<char> = chars_of(token);
        let cut: Vec<char> = trim(chars.as_slice());
        let low: Vec<char> = lower_all(cut.as_slice());
        let name: String = text_of(low.as_slice());
        let t: &str = name.as_str();
        if same_text(t, "chrome") {
            Some(TlsFingerprint::Chrome)
        } else if same_text(t, "firefox") || same_text(t, "ff") {
            Some(TlsFingerprint::Firefox)
        } else if same_text(t, "safari") {
            Some(TlsFingerprint::Safari)
        } else if same_text(t, "ios") || same_text(t, "ios_safari") || same_text(t, "ios-safari") {
            Some(TlsFingerprint::IosSafari)
        } else if same_text(t, "android") || same_text(t, "android_chrome") || same_text(
            t,
            "android-chrome",
        ) {
            Some(TlsFingerprint::AndroidChrome)
        } else if same_text(t, "random") || same_text(t, "randomized") || same_text(t, "rand") {
            Some(TlsFingerprint::Randomized)
        } else {
            None
        }
    }
}

/// A text that has no white space at its ends and no letters from A to Z is read as
/// it stands.
proof fn lemma_clean(t: Seq<char>)
    requires
        t.len() > 0,
        forall|i: int| 0 <= i < t.len() ==> !is_white(#[trigger] t[i]) && lower(t[i]) == t[i],
    ensures
        lowered(trimmed(t)) == t,
{
    assert(end_trimmed(t) == t);
    assert(start_trimmed(t) == t);
    assert(lowered(t) =~= t);
}

/// The name of a look stands for that look.
pub proof fn names_round_trip(fp: TlsFingerprint)
    ensures
        TlsFingerprint::named(lowered(trimmed(fp.token()))) == Some(fp),
{
    reveal_strlit("chrome");
    reveal_strlit("firefox");
    reveal_strlit("ff");
    reveal_strlit("safari");
    reveal_strlit("ios");
    reveal_strlit("ios_safari");
    reveal_strlit("ios-safari");
    reveal_strlit("android");
    reveal_strlit("android_chrome");
    reveal_strlit("android-chrome");
    reveal_strlit("random");
    reveal_strlit("randomized");
    reveal_strlit("rand");
    lemma_clean(fp.token());
    assert("chrome"@[0] == 'c');
    assert("firefox"@[0] == 'f');
    assert("ff"@[0] == 'f');
    assert("safari"@[0] == 's');
    assert("ios"@[0] == 'i');
    assert("ios_safari"@[0] == 'i');
    assert("ios-safari"@[0] == 'i');
    assert("android"@[0] == 'a');
    assert("android_chrome"@[0] == 'a');
    assert("android-chrome"@[0] == 'a');
    assert("random"@[0] == 'r');
}

/// The ciphers that Chrome names for TLS 1.2.
pub const CHROME_CIPHERS: &'static str =
    "ECDHE-ECDSA-AES128-GCM-SHA256:ECDHE-RSA-AES128-GCM-SHA256:ECDHE-ECDSA-CHACHA20-POLY1305:ECDHE-RSA-CHACHA20-POLY1305:ECDHE-ECDSA-AES256-GCM-SHA384:ECDHE-RSA-AES256-GCM-SHA384:AES128-GCM-SHA256:AES256-GCM-SHA384:AES128-SHA:AES256-SHA";

/// The ciphers that Firefox names for TLS 1.2.
pub const FIREFOX_CIPHERS: &'static str =
    "ECDHE-ECDSA-AES128-GCM-SHA256:ECDHE-RSA-AES128-GCM-SHA256:ECDHE-ECDSA-CHACHA20-POLY1305:ECDHE-RSA-CHACHA20-POLY1305:ECDHE-ECDSA-AES256-GCM-SHA384:ECDHE-RSA-AES256-GCM-SHA384:ECDHE-ECDSA-AES256-SHA:ECDHE-ECDSA-AES128-SHA:ECDHE-RSA-AES128-SHA:ECDHE-RSA-AES256-SHA:AES128-GCM-SHA256:AES256-GCM-SHA384:AES128-SHA:AES256-SHA";

/// The ciphers that Safari names for TLS 1.2.
pub const SAFARI_CIPHERS: &'static str =
    "ECDHE-ECDSA-AES256-GCM-SHA384:ECDHE-ECDSA-AES128-GCM-SHA256:ECDHE-ECDSA-CHACHA20-POLY1305:ECDHE-RSA-AES256-GCM-SHA384:ECDHE-RSA-AES128-GCM-SHA256:ECDHE-RSA-CHACHA20-POLY1305:ECDHE-ECDSA-AES256-SHA:ECDHE-ECDSA-AES128-SHA:ECDHE-RSA-AES256-SHA:ECDHE-RSA-AES128-SHA:AES256-GCM-SHA384:AES128-GCM-SHA256:AES256-SHA:AES128-SHA";

/// The groups that Chrome names.
pub const CHROME_CURVES: &'static str =
    "X25519:P-256:P-384";

/// The groups that Firefox and Safari name.
pub const FF_SAFARI_CURVES: &'static str =
    "X25519:P-256:P-384:P-521";

/// The signatures that Chrome names.
pub const CHROME_SIGALGS: &'static str =
    "ecdsa_secp256r1_sha256:rsa_pss_rsae_sha256:rsa_pkcs1_sha256:ecdsa_secp384r1_sha384:rsa_pss_rsae_sha384:rsa_pkcs1_sha384:rsa_pss_rsae_sha512:rsa_pkcs1_sha512";

/// The signatures that Firefox names.
pub const FIREFOX_SIGALGS: &'static str =
    "ecdsa_secp256r1_sha256:ecdsa_secp384r1_sha384:ecdsa_secp521r1_sha512:rsa_pss_rsae_sha256:rsa_pss_rsae_sha384:rsa_pss_rsae_sha512:rsa_pkcs1_sha256:rsa_pkcs1_sha384:rsa_pkcs1_sha512:ecdsa_sha1:rsa_pkcs1_sha1";

/// The signatures that Safari names.
pub const SAFARI_SIGALGS: &'static str =
    "ecdsa_secp256r1_sha256:rsa_pss_rsae_sha256:rsa_pkcs1_sha256:ecdsa_secp384r1_sha384:ecdsa_sha1:rsa_pss_rsae_sha384:rsa_pkcs1_sha384:rsa_pkcs1_sha1:rsa_pss_rsae_sha512:rsa_pkcs1_sha512";

/// What a TLS library is told so that its first message has a certain look.
#[derive(Clone, Debug, PartialEq, Eq)]
pub struct FingerprintProfile {
    /// Name for logs.
    pub label: String,
    /// Ciphers for TLS 1.2, between colons.
    pub tls12_ciphers: String,
    /// Groups, between colons.
    pub curves: String,
    /// Signatures, between colons.
    pub sigalgs: String,
    /// Whether values without meaning are mixed in.
    pub grease: bool,
    /// Whether the order of the extensions varies.
    pub permute_extensions: bool,
}

/// The content of a [`FingerprintProfile`].
#[verifier::ext_equal]
pub ghost struct Look {
    pub label: Seq<char>,
    pub tls12_ciphers: Seq<char>,
    pub curves: Seq<char>,
    pub sigalgs: Seq<char>,
    pub grease: bool,
    pub permute_extensions: bool,
}

impl View for FingerprintProfile {
    type V = Look;

    open spec fn view(&self) -> Look {
        Look {
            label: self.label@,
            tls12_ciphers: self.tls12_ciphers@,
            curves: self.curves@,
            sigalgs: self.sigalgs@,
            grease: self.grease,
            permute_extensions: self.permute_extensions,
        }
    }
}

/// The look of an actual browser; nothing for a made-up one.
pub open spec fn browser_look(fp: TlsFingerprint) -> Option<Look> {
    match fp {
        TlsFingerprint::Chrome | TlsFingerprint::AndroidChrome => Some(
            Look {
                label: fp.token(),
                tls12_ciphers: CHROME_CIPHERS@,
                curves: CHROME_CURVES@,
                sigalgs: CHROME_SIGALGS@,
                grease: true,
                permute_extensions: true,
            },
        ),
        TlsFingerprint::Firefox => Some(
            Look {
                label: fp.token(),
                tls12_ciphers: FIREFOX_CIPHERS@,
                curves: FF_SAFARI_CURVES@,
                sigalgs: FIREFOX_SIGALGS@,
                grease: true,
                permute_extensions: false,
            },
        ),
        TlsFingerprint::Safari | TlsFingerprint::IosSafari => Some(
            Look {
                label: fp.token(),
                tls12_ciphers: SAFARI_CIPHERS@,
                curves: FF_SAFARI_CURVES@,
                sigalgs: SAFARI_SIGALGS@,
                grease: true,
                permute_extensions: false,
            },
        ),
        TlsFingerprint::Randomized => None,
    }
}

/// Number of ciphers that a made-up look draws from.
pub const POOL_LEN: usize = 10;

/// Number of groups whose order a made-up look draws.
pub const TAIL_LEN: usize = 3;

/// Least number of ciphers in a made-up look.
pub const MIN_CIPHERS: usize = 4;

/// The ciphers that a made-up look draws from.
pub open spec fn pool_name(i: usize) -> Seq<char> {
    match i {
        0 => "ECDHE-ECDSA-AES128-GCM-SHA256"@,
        1 => "ECDHE-RSA-AES128-GCM-SHA256"@,
        2 => "ECDHE-ECDSA-CHACHA20-POLY1305"@,
        3 => "ECDHE-RSA-CHACHA20-POLY1305"@,
        4 => "ECDHE-ECDSA-AES256-GCM-SHA384"@,
        5 => "ECDHE-RSA-AES256-GCM-SHA384"@,
        6 => "ECDHE-ECDSA-AES256-SHA"@,
        7 => "ECDHE-RSA-AES256-SHA"@,
        8 => "AES128-GCM-SHA256"@,
        _ => "AES256-GCM-SHA384"@,
    }
}

/// The ciphers that a made-up look draws from.
fn pool_cipher(i: usize) -> (s: &'static str)
    requires
        i < POOL_LEN,
    ensures
        s@ == pool_name(i),
{
    match i {
        0 => "ECDHE-ECDSA-AES128-GCM-SHA256",
        1 => "ECDHE-RSA-AES128-GCM-SHA256",
        2 => "ECDHE-ECDSA-CHACHA20-POLY1305",
        3 => "ECDHE-RSA-CHACHA20-POLY1305",
        4 => "ECDHE-ECDSA-AES256-GCM-SHA384",
        5 => "ECDHE-RSA-AES256-GCM-SHA384",
        6 => "ECDHE-ECDSA-AES256-SHA",
        7 => "ECDHE-RSA-AES256-SHA",
        8 => "AES128-GCM-SHA256",
        _ => "AES256-GCM-SHA384",
    }
}

/// The groups whose order a made-up look draws.
pub open spec fn tail_name(i: usize) -> Seq<char> {
    match i {
        0 => "P-256"@,
        1 => "P-384"@,
        _ => "P-521"@,
    }
}

/// The groups whose order a made-up look draws.
fn tail_curve(i: usize) -> (s: &'static str)
    requires
        i < TAIL_LEN,
    ensures
        s@ == tail_name(i),
{
    match i {
        0 => "P-256",
        1 => "P-384",
        _ => "P-521",
    }
}

/// Whether a cipher also authenticates what it encrypts.
pub open spec fn is_aead(name: Seq<char>) -> bool {
    holds_text(name, "GCM"@) || holds_text(name, "CHACHA20"@)
}

/// Whether a cipher also authenticates what it encrypts.
fn aead(name: &str) -> (b: bool)
    ensures
        b == is_aead(name@),
{
    has_part(name, "GCM") || has_part(name, "CHACHA20")
}

/// Whether `order` holds each number below `n` once.
pub open spec fn is_order(order: Seq<usize>, n: nat) -> bool {
    &&& order.len() == n
    &&& forall|i: int| 0 <= i < n ==> 0 <= #[trigger] order[i] < n
    &&& forall|i: int, j: int| 0 <= i < j < n ==> #[trigger] order[i] != #[trigger] order[j]
}

/// The first position whose cipher authenticates, from `from` on; the end without
/// one.
pub open spec fn first_aead(order: Seq<usize>, from: int) -> int
    decreases order.len() - from,
{
    if from >= order.len() || is_aead(pool_name(order[from])) {
        from
    } else {
        first_aead(order, from + 1)
    }
}

/// An order of ciphers with one that authenticates brought to the front.
pub open spec fn aead_led(order: Seq<usize>) -> Seq<usize> {
    let p = first_aead(order, 0);
    if 0 < p < order.len() {
        order.update(0, order[p]).update(p, order[0])
    } else {
        order
    }
}

/// Texts one behind another, with colons between them.
pub open spec fn colon_joined(names: Seq<Seq<char>>) -> Seq<char>
    decreases names.len(),
{
    if names.len() == 0 {
        Seq::empty()
    } else if names.len() == 1 {
        names[0]
    } else {
        colon_joined(names.drop_last()) + ":"@ + names.last()
    }
}

/// A length from `min` to `max`, chosen by a number.
pub open spec fn picked_len(draw: u32, min: nat, max: nat) -> nat {
    if min >= max {
        max
    } else {
        (min + draw as nat % ((max - min + 1) as nat)) as nat
    }
}

/// A length from `min` to `max`, chosen by a number.
fn pick_len(draw: u32, min: usize, max: usize) -> (n: usize)
    requires
        max < u32::MAX,
    ensures
        n == picked_len(draw, min as nat, max as nat),
        min <= max ==> min <= n <= max,
{
    if min >= max {
        return max;
    }
    let span: u32 = (max - min + 1) as u32;
    min + (draw % span) as usize
}

/// The ciphers of a made-up look, from the order and the number that were drawn.
pub open spec fn drawn_ciphers(order: Seq<usize>, draw: u32) -> Seq<Seq<char>> {
    let led = aead_led(order);
    Seq::new(
        picked_len(draw, MIN_CIPHERS as nat, order.len()),
        |i: int| pool_name(led[i]),
    )
}

/// The groups of a made-up look, behind the first, from the order that was drawn.
pub open spec fn drawn_tail(tail: Seq<usize>) -> Seq<Seq<char>> {
    Seq::new(tail.len(), |i: int| tail_name(tail[i]))
}

/// A made-up look, from what was drawn.
pub open spec fn drawn_look(order: Seq<usize>, draw: u32, tail: Seq<usize>) -> Look {
    Look {
        label: "random"@,
        tls12_ciphers: colon_joined(drawn_ciphers(order, draw)),
        curves: "X25519:"@ + colon_joined(drawn_tail(tail)),
        sigalgs: CHROME_SIGALGS@,
        grease: true,
        permute_extensions: true,
    }
}

/// Whether a look can have been drawn.
pub open spec fn may_be_drawn(l: Look) -> bool {
    exists|order: Seq<usize>, draw: u32, tail: Seq<usize>|
        is_order(order, POOL_LEN as nat) && is_order(tail, TAIL_LEN as nat) && l
            == #[trigger] drawn_look(order, draw, tail)
}

/// Calls `rand`'s `SliceRandom::shuffle` with the generator of the thread. It
/// leaves the same numbers, in an order that is drawn. The call panics when the
/// operating system has no randomness to seed the generator with.
#[verifier::external_body]
fn shuffle(v: &mut Vec<usize>)
    ensures
        final(v)@.to_multiset() == old(v)@.to_multiset(),
{
    v.shuffle(&mut rand::rng());
}

/// Calls `rand`'s `RngCore::next_u32` on the generator of the thread. Any number
/// may come. The call panics when the operating system has no randomness to seed the
/// generator with.
#[verifier::external_body]
fn random_u32() -> (n: u32) {
    rand::rng().next_u32()
}

/// The numbers below `n`, in an order that is drawn.
fn random_order(n: usize) -> (v: Vec<usize>)
    ensures
        is_order(v@, n as nat),
{
    let mut v: Vec<usize> = Vec::new();
    let mut i: usize = 0;
    while i < n
        invariant
            i <= n,
            v@.len() == i,
            forall|k: int| 0 <= k < i ==> v@[k] == k,
        decreases n - i,
    {
        v.push(i);
        i = i + 1;
    }
    let ghost before = v@;
    shuffle(&mut v);
    proof {
        lemma_same_numbers(before, v@, n as nat);
    }
    v
}

/// Numbers that are those below `n`, in whatever order, are an order.
proof fn lemma_same_numbers(a: Seq<usize>, b: Seq<usize>, n: nat)
    requires
        a.len() == n,
        forall|k: int| 0 <= k < n ==> a[k] == k,
        b.to_multiset() == a.to_multiset(),
    ensures
        is_order(b, n),
{
    broadcast use vstd::seq_lib::group_to_multiset_ensures;

    a.to_multiset_ensures();
    b.to_multiset_ensures();
    assert forall|i: int| 0 <= i < n implies 0 <= #[trigger] b[i] < n by {
        assert(b.contains(b[i]));
        assert(a.to_multiset().count(b[i]) > 0);
        assert(a.contains(b[i]));
    }
    assert(a.no_duplicates());
    a.lemma_multiset_has_no_duplicates();
    assert forall|x: usize| b.to_multiset().contains(x) implies b.to_multiset().count(x) == 1 by {
        assert(a.to_multiset().contains(x));
    }
    b.lemma_multiset_has_no_duplicates_conv();
}

/// Joins texts with colons between them.
fn join_colon(names: &Vec<&'static str>) -> (s: String)
    ensures
        s@ == colon_joined(Seq::new(names@.len(), |i: int| names@[i]@)),
{
    let ghost all = Seq::new(names@.len(), |i: int| names@[i]@);
    let mut s: String = String::new();
    let mut i: usize = 0;
    assert(all.take(0) =~= Seq::<Seq<char>>::empty());
    while i < names.len()
        invariant
            i <= names@.len(),
            all == Seq::new(names@.len(), |k: int| names@[k]@),
            s@ == colon_joined(all.take(i as int)),
        decreases names@.len() - i,
    {
        let ghost next = all.take(i + 1);
        assert(next.drop_last() =~= all.take(i as int));
        assert(next.last() == names@[i as int]@);
        if i > 0 {
            s.append(":");
        }
        s.append(names[i]);
        proof {
            if i == 0 {
                assert(Seq::<char>::empty() + names@[0]@ =~= names@[0]@);
                assert(all.take(0) =~= Seq::<Seq<char>>::empty());
            }
        }
        i = i + 1;
    }
    assert(all.take(i as int) =~= all);
    s
}

impl FingerprintProfile {
    fn made(
        label: &str,
        ciphers: &str,
        curves: &str,
        sigalgs: &str,
        permute_extensions: bool,
    ) -> (p: FingerprintProfile)
        ensures
            p@ == (Look {
                label: label@,
                tls12_ciphers: ciphers@,
                curves: curves@,
                sigalgs: sigalgs@,
                grease: true,
                permute_extensions,
            }),
    {
        FingerprintProfile {
            label: String::from_str(label),
            tls12_ciphers: String::from_str(ciphers),
            curves: String::from_str(curves),
            sigalgs: String::from_str(sigalgs),
            grease: true,
            permute_extensions,
        }
    }

    /// What a look asks of a TLS library. A made-up look is drawn anew by each call.
    pub fn resolve(fp: TlsFingerprint) -> (p: FingerprintProfile)
        ensures
            match browser_look(fp) {
                Some(l) => p@ == l,
                None => may_be_drawn(p@),
            },
    {
        match fp {
            TlsFingerprint::Chrome => Self::made(
                "chrome",
                CHROME_CIPHERS,
                CHROME_CURVES,
                CHROME_SIGALGS,
                true,
            ),
            TlsFingerprint::AndroidChrome => Self::made(
                "android",
                CHROME_CIPHERS,
                CHROME_CURVES,
                CHROME_SIGALGS,
                true,
            ),
            TlsFingerprint::Firefox => Self::made(
                "firefox",
                FIREFOX_CIPHERS,
                FF_SAFARI_CURVES,
                FIREFOX_SIGALGS,
                false,
            ),
            TlsFingerprint::Safari => Self::made(
                "safari",
                SAFARI_CIPHERS,
                FF_SAFARI_CURVES,
                SAFARI_SIGALGS,
                false,
            ),
            TlsFingerprint::IosSafari => Self::made(
                "ios",
                SAFARI_CIPHERS,
                FF_SAFARI_CURVES,
                SAFARI_SIGALGS,
                false,
            ),
            TlsFingerprint::Randomized => Self::randomized(),
        }
    }

    /// A made-up look: some of the ciphers in a drawn order with one that
    /// authenticates in front, and the groups in a drawn order behind X25519.
    pub fn randomized() -> (p: FingerprintProfile)
        ensures
            may_be_drawn(p@),
    {
        let order: Vec<usize> = random_order(POOL_LEN);
        let draw: u32 = random_u32();
        let tail: Vec<usize> = random_order(TAIL_LEN);
        Self::from_draw(&order, draw, &tail)
    }

    /// The made-up look that goes with what was drawn: the order of the ciphers,
    /// the number that chooses how many stay, and the order of the groups.
    pub fn from_draw(order: &Vec<usize>, draw: u32, tail: &Vec<usize>) -> (p: FingerprintProfile)
        requires
            is_order(order@, POOL_LEN as nat),
            is_order(tail@, TAIL_LEN as nat),
        ensures
            p@ == drawn_look(order@, draw, tail@),
    {
        let mut p: usize = 0;
        while p < order.len() && !aead(pool_cipher(order[p]))
            invariant
                p <= order@.len(),
                is_order(order@, POOL_LEN as nat),
                first_aead(order@, 0) == first_aead(order@, p as int),
            decreases order@.len() - p,
        {
            p = p + 1;
        }
        assert(first_aead(order@, 0) == p);
        let swapped: bool = 0 < p && p < order.len();
        let keep: usize = pick_len(draw, MIN_CIPHERS, order.len());
        let mut names: Vec<&'static str> = Vec::new();
        let mut i: usize = 0;
        while i < keep
            invariant
                i <= keep <= order@.len(),
                is_order(order@, POOL_LEN as nat),
                p == first_aead(order@, 0),
                swapped == (0 < p && p < order@.len()),
                names@.len() == i,
                forall|k: int|
                    0 <= k < i ==> (#[trigger] names@[k])@ == pool_name(
                        aead_led(order@)[k],
                    ),
            decreases keep - i,
        {
            let at: usize = if swapped && i == 0 {
                p
            } else if swapped && i == p {
                0
            } else {
                i
            };
            assert(order@[at as int] == aead_led(order@)[i as int]);
            names.push(pool_cipher(order[at]));
            i = i + 1;
        }
        assert(Seq::new(names@.len(), |k: int| names@[k]@) =~= drawn_ciphers(order@, draw));
        let mut groups: Vec<&'static str> = Vec::new();
        let mut j: usize = 0;
        while j < tail.len()
            invariant
                j <= tail@.len(),
                is_order(tail@, TAIL_LEN as nat),
                groups@.len() == j,
                forall|k: int|
                    0 <= k < j ==> (#[trigger] groups@[k])@ == tail_name(tail@[k]),
            decreases tail@.len() - j,
        {
            groups.push(tail_curve(tail[j]));
            j = j + 1;
        }
        assert(Seq::new(groups@.len(), |k: int| groups@[k]@) =~= drawn_tail(tail@));
        let ciphers: String = join_colon(&names);
        let rest: String = join_colon(&groups);
        let mut curves: String = String::from_str("X25519:");
        curves.append(rest.as_str());
        Self::made("random", ciphers.as_str(), curves.as_str(), CHROME_SIGALGS, true)
    }
}

/// Some cipher of the pool authenticates.
proof fn lemma_pool_has_aead()
    ensures
        is_aead(pool_name(8)),
{
    reveal_strlit("AES128-GCM-SHA256");
    reveal_strlit("GCM");
    let s = "AES128-GCM-SHA256"@;
    assert(s.skip(7).take(3) =~= "GCM"@);
    assert(starts_with(s.skip(7), "GCM"@));
}

/// Where the search for a cipher that authenticates ends.
proof fn lemma_first_aead(order: Seq<usize>, from: int, at: int)
    requires
        0 <= from <= at < order.len(),
        is_aead(pool_name(order[at])),
    ensures
        from <= first_aead(order, from) <= at,
        is_aead(pool_name(order[first_aead(order, from)])),
    decreases at - from,
{
    if !is_aead(pool_name(order[from])) {
        lemma_first_aead(order, from + 1, at);
    }
}

/// Every number below `n` is somewhere in an order.
proof fn lemma_order_covers(order: Seq<usize>, n: nat, x: usize)
    requires
        is_order(order, n),
        x < n,
    ensures
        order.contains(x),
{
    let values = order.to_set();
    let below = vstd::set_lib::set_int_range(0, n as int);
    let numbers = order.map_values(|v: usize| v as int);
    order.unique_seq_to_set();
    assert(numbers.no_duplicates());
    numbers.unique_seq_to_set();
    vstd::set_lib::lemma_int_range(0, n as int);
    assert(numbers.to_set().subset_of(below)) by {
        assert forall|v: int| numbers.to_set().contains(v) implies below.contains(v) by {
            let i = choose|i: int| 0 <= i < numbers.len() && numbers[i] == v;
            assert(order[i] < n);
        }
    }
    vstd::set_lib::lemma_subset_equality(numbers.to_set(), below);
    assert(below.contains(x as int));
    let i = choose|i: int| 0 <= i < numbers.len() && numbers[i] == x as int;
    assert(order[i] == x);
}

/// Whatever is drawn, a made-up look names at least four ciphers, the first of
/// which authenticates, and X25519 as its first group.
pub proof fn made_up_looks_are_plausible(order: Seq<usize>, draw: u32, tail: Seq<usize>)
    requires
        is_order(order, POOL_LEN as nat),
        is_order(tail, TAIL_LEN as nat),
    ensures
        MIN_CIPHERS <= drawn_ciphers(order, draw).len() <= POOL_LEN,
        is_aead(drawn_ciphers(order, draw)[0]),
        starts_with(drawn_look(order, draw, tail).curves, "X25519"@),
        drawn_look(order, draw, tail).grease,
{
    lemma_pool_has_aead();
    lemma_order_covers(order, POOL_LEN as nat, 8);
    let at = choose|i: int| 0 <= i < order.len() && order[i] == 8;
    lemma_first_aead(order, 0, at);
    reveal_strlit("X25519:");
    reveal_strlit("X25519");
    let curves = drawn_look(order, draw, tail).curves;
    assert(curves.take(6) =~= "X25519"@);
}

/// Every actual browser names X25519 as its first group, some ciphers and some
/// signatures.
pub proof fn browsers_lead_with_x25519(fp: TlsFingerprint)
    requires
        fp != TlsFingerprint::Randomized,
    ensures
        browser_look(fp) matches Some(l) && starts_with(l.curves, "X25519"@)
            && l.tls12_ciphers.len() > 0 && l.sigalgs.len() > 0 && l.grease,
{
    let l = browser_look(fp)->0;
    reveal_strlit("X25519");
    reveal_strlit(
        "ECDHE-ECDSA-AES128-GCM-SHA256:ECDHE-RSA-AES128-GCM-SHA256:ECDHE-ECDSA-CHACHA20-POLY1305:ECDHE-RSA-CHACHA20-POLY1305:ECDHE-ECDSA-AES256-GCM-SHA384:ECDHE-RSA-AES256-GCM-SHA384:AES128-GCM-SHA256:AES256-GCM-SHA384:AES128-SHA:AES256-SHA",
    );
    reveal_strlit(
        "ECDHE-ECDSA-AES128-GCM-SHA256:ECDHE-RSA-AES128-GCM-SHA256:ECDHE-ECDSA-CHACHA20-POLY1305:ECDHE-RSA-CHACHA20-POLY1305:ECDHE-ECDSA-AES256-GCM-SHA384:ECDHE-RSA-AES256-GCM-SHA384:ECDHE-ECDSA-AES256-SHA:ECDHE-ECDSA-AES128-SHA:ECDHE-RSA-AES128-SHA:ECDHE-RSA-AES256-SHA:AES128-GCM-SHA256:AES256-GCM-SHA384:AES128-SHA:AES256-SHA",
    );
    reveal_strlit(
        "ECDHE-ECDSA-AES256-GCM-SHA384:ECDHE-ECDSA-AES128-GCM-SHA256:ECDHE-ECDSA-CHACHA20-POLY1305:ECDHE-RSA-AES256-GCM-SHA384:ECDHE-RSA-AES128-GCM-SHA256:ECDHE-RSA-CHACHA20-POLY1305:ECDHE-ECDSA-AES256-SHA:ECDHE-ECDSA-AES128-SHA:ECDHE-RSA-AES256-SHA:ECDHE-RSA-AES128-SHA:AES256-GCM-SHA384:AES128-GCM-SHA256:AES256-SHA:AES128-SHA",
    );
    reveal_strlit(
        "X25519:P-256:P-384",
    );
    reveal_strlit(
        "X25519:P-256:P-384:P-521",
    );
    reveal_strlit(
        "ecdsa_secp256r1_sha256:rsa_pss_rsae_sha256:rsa_pkcs1_sha256:ecdsa_secp384r1_sha384:rsa_pss_rsae_sha384:rsa_pkcs1_sha384:rsa_pss_rsae_sha512:rsa_pkcs1_sha512",
    );
    reveal_strlit(
        "ecdsa_secp256r1_sha256:ecdsa_secp384r1_sha384:ecdsa_secp521r1_sha512:rsa_pss_rsae_sha256:rsa_pss_rsae_sha384:rsa_pss_rsae_sha512:rsa_pkcs1_sha256:rsa_pkcs1_sha384:rsa_pkcs1_sha512:ecdsa_sha1:rsa_pkcs1_sha1",
    );
    reveal_strlit(
        "ecdsa_secp256r1_sha256:rsa_pss_rsae_sha256:rsa_pkcs1_sha256:ecdsa_secp384r1_sha384:ecdsa_sha1:rsa_pss_rsae_sha384:rsa_pkcs1_sha384:rsa_pkcs1_sha1:rsa_pss_rsae_sha512:rsa_pkcs1_sha512",
    );
    assert(l.curves.take(6) =~= "X25519"@);
}

/// How the look of the next connection is chosen.
#[derive(Clone, Debug, PartialEq, Eq)]
pub enum TlsFingerprintMode {
    /// Always the same one.
    Pinned(TlsFingerprint),
    /// One after another, until one gets through.
    Rotate(Vec<TlsFingerprint>),
    /// Made up anew each time.
    Random,
}

/// The content of a [`TlsFingerprintMode`].
#[verifier::ext_equal]
pub ghost enum Choice {
    Pinned(TlsFingerprint),
    Rotate(Seq<TlsFingerprint>),
    Random,
}

impl View for TlsFingerprintMode {
    type V = Choice;

    open spec fn view(&self) -> Choice {
        match self {
            TlsFingerprintMode::Pinned(fp) => Choice::Pinned(*fp),
            TlsFingerprintMode::Rotate(order) => Choice::Rotate(order@),
            TlsFingerprintMode::Random => Choice::Random,
        }
    }
}

/// Number of made-up looks that are tried for one connection.
pub const RANDOM_ATTEMPTS: usize = 3;

/// Chooses the looks that are tried for a connection. Which one last got through
/// stands in a [`TlsFingerprintCursor`], which all clones of a policy share.
#[derive(Debug)]
pub struct TlsFingerprintPolicy {
    mode: TlsFingerprintMode,
    sticky: bool,
}

/// Remembers, for a policy and all its clones, which look of the rotation last got
/// through.
#[derive(Debug)]
pub struct TlsFingerprintCursor {
    last_ok: usize,
}

impl View for TlsFingerprintCursor {
    type V = usize;

    closed spec fn view(&self) -> usize {
        self.last_ok
    }
}

impl TlsFingerprintCursor {
    /// At the head of the rotation.
    pub fn new() -> (c: TlsFingerprintCursor)
        ensures
            c@ == 0,
    {
        TlsFingerprintCursor { last_ok: 0 }
    }
}

impl Default for TlsFingerprintCursor {
    fn default() -> (c: TlsFingerprintCursor)
        ensures
            c@ == 0,
    {
        TlsFingerprintCursor::new()
    }
}

/// The content of a [`TlsFingerprintPolicy`].
#[verifier::ext_equal]
pub ghost struct Rule {
    /// How looks are chosen.
    pub choice: Choice,
    /// Whether a rotation begins with the look that last got through.
    pub sticky: bool,
}

impl Rule {
    /// Chrome, Firefox and Safari in turn, beginning with the one that last got
    /// through.
    pub open spec fn standard() -> Rule {
        Rule {
            choice: Choice::Rotate(
                seq![TlsFingerprint::Chrome, TlsFingerprint::Firefox, TlsFingerprint::Safari],
            ),
            sticky: true,
        }
    }

    /// A policy and the place in the rotation of the look that last got through.
    pub open spec fn at(self, last_ok: usize) -> Policy {
        Policy { choice: self.choice, sticky: self.sticky, last_ok }
    }
}

/// A policy and what is remembered of its rotation.
#[verifier::ext_equal]
pub ghost struct Policy {
    /// How looks are chosen.
    pub choice: Choice,
    /// Whether a rotation begins with the look that last got through.
    pub sticky: bool,
    /// The place in the rotation of the look that last got through.
    pub last_ok: usize,
}

impl Policy {
    /// The place in a rotation of `n` looks at which attempts begin.
    pub open spec fn start(self, n: nat) -> nat {
        if self.sticky {
            self.last_ok as nat % n
        } else {
            0
        }
    }

    /// The looks to try for one connection, in order, each with its place in the
    /// rotation, which is 0 where nothing rotates.
    pub open spec fn attempts(self) -> Seq<(usize, TlsFingerprint)> {
        match self.choice {
            Choice::Pinned(fp) => seq![(0usize, fp)],
            Choice::Random => Seq::new(
                RANDOM_ATTEMPTS as nat,
                |k: int| (0usize, TlsFingerprint::Randomized),
            ),
            Choice::Rotate(order) => Seq::new(
                order.len(),
                |k: int|
                    {
                        let i = (self.start(order.len()) + k) % (order.len() as int);
                        (i as usize, order[i])
                    },
            ),
        }
    }

    /// What is remembered after the look at a place of the rotation got through.
    pub open spec fn after_success(self, place: usize) -> Policy {
        if self.sticky && self.choice is Rotate {
            Policy { last_ok: place, ..self }
        } else {
            self
        }
    }
}

impl View for TlsFingerprintPolicy {
    type V = Rule;

    closed spec fn view(&self) -> Rule {
        Rule { choice: self.mode@, sticky: self.sticky }
    }
}

impl Clone for TlsFingerprintPolicy {
    fn clone(&self) -> (p: TlsFingerprintPolicy)
        ensures
            p@ == self@,
    {
        proof {
            use_type_invariant(self);
        }
        let mode: TlsFingerprintMode = match &self.mode {
            TlsFingerprintMode::Pinned(fp) => TlsFingerprintMode::Pinned(*fp),
            TlsFingerprintMode::Rotate(order) => {
                let n: usize = order.len();
                let mut copy: Vec<TlsFingerprint> = Vec::new();
                let mut i: usize = 0;
                while i < n
                    invariant
                        i <= n,
                        n == order@.len(),
                        copy@ =~= order@.take(i as int),
                    decreases n - i,
                {
                    copy.push(order[i]);
                    i = i + 1;
                }
                assert(copy@ =~= order@);
                TlsFingerprintMode::Rotate(copy)
            },
            TlsFingerprintMode::Random => TlsFingerprintMode::Random,
        };
        TlsFingerprintPolicy { mode, sticky: self.sticky }
    }
}

impl Default for TlsFingerprintPolicy {
    /// Chrome, Firefox and Safari in turn, beginning with the one that last got
    /// through.
    fn default() -> (p: TlsFingerprintPolicy)
        ensures
            p@ == Rule::standard(),
    {
        let mut order: Vec<TlsFingerprint> = Vec::new();
        order.push(TlsFingerprint::Chrome);
        order.push(TlsFingerprint::Firefox);
        order.push(TlsFingerprint::Safari);
        assert(order@ =~= seq![
            TlsFingerprint::Chrome,
            TlsFingerprint::Firefox,
            TlsFingerprint::Safari,
        ]);
        TlsFingerprintPolicy::rotate(order, true)
    }
}

impl TlsFingerprintPolicy {
    #[verifier::type_invariant]
    spec fn well_formed(self) -> bool {
        self.mode@ matches Choice::Rotate(order) ==> order.len() > 0
    }

    /// Always the same look.
    pub fn pinned(fp: TlsFingerprint) -> (p: TlsFingerprintPolicy)
        ensures
            p@ == (Rule { choice: Choice::Pinned(fp), sticky: false }),
    {
        TlsFingerprintPolicy { mode: TlsFingerprintMode::Pinned(fp), sticky: false }
    }

    /// One look after another; Chrome alone where none is given.
    pub fn rotate(order: Vec<TlsFingerprint>, sticky: bool) -> (p: TlsFingerprintPolicy)
        ensures
            p@ == (Rule {
                choice: Choice::Rotate(
                    if order@.len() == 0 {
                        seq![TlsFingerprint::Chrome]
                    } else {
                        order@
                    },
                ),
                sticky,
            }),
    {
        let mut order: Vec<TlsFingerprint> = order;
        if order.len() == 0 {
            order.push(TlsFingerprint::Chrome);
            assert(order@ =~= seq![TlsFingerprint::Chrome]);
        }
        TlsFingerprintPolicy { mode: TlsFingerprintMode::Rotate(order), sticky }
    }

    /// A made-up look each time.
    pub fn random() -> (p: TlsFingerprintPolicy)
        ensures
            p@ == (Rule { choice: Choice::Random, sticky: false }),
    {
        TlsFingerprintPolicy { mode: TlsFingerprintMode::Random, sticky: false }
    }

    /// How looks are chosen.
    pub fn mode(&self) -> (m: &TlsFingerprintMode)
        ensures
            m@ == self@.choice,
    {
        &self.mode
    }

    /// Whether a rotation begins with the look that last got through.
    pub fn is_sticky(&self) -> (b: bool)
        ensures
            b == self@.sticky,
    {
        self.sticky
    }

    /// The looks to try for one connection, in order, each with its place in the
    /// rotation.
    pub fn attempt_order(&self, cursor: &TlsFingerprintCursor) -> (v: Vec<
        (usize, TlsFingerprint),
    >)
        ensures
            v@ == self@.at(cursor@).attempts(),
            v@.len() > 0,
    {
        let ghost p = self@.at(cursor@);
        proof {
            use_type_invariant(self);
        }
        let mut v: Vec<(usize, TlsFingerprint)> = Vec::new();
        match &self.mode {
            TlsFingerprintMode::Pinned(fp) => {
                v.push((0, *fp));
                assert(v@ =~= p.attempts());
            },
            TlsFingerprintMode::Random => {
                let mut k: usize = 0;
                while k < RANDOM_ATTEMPTS
                    invariant
                        k <= RANDOM_ATTEMPTS,
                        v@ =~= Seq::new(k as nat, |i: int| (0usize, TlsFingerprint::Randomized)),
                    decreases RANDOM_ATTEMPTS - k,
                {
                    v.push((0, TlsFingerprint::Randomized));
                    k = k + 1;
                }
                assert(v@ =~= p.attempts());
            },
            TlsFingerprintMode::Rotate(order) => {
                let n: usize = order.len();
                let start: usize = if self.sticky {
                    cursor.last_ok % n
                } else {
                    0
                };
                let mut k: usize = 0;
                while k < n
                    invariant
                        k <= n,
                        0 <= start < n,
                        n == order@.len(),
                        p.choice == Choice::Rotate(order@),
                        start == p.start(n as nat),
                        v@ =~= p.attempts().take(k as int),
                    decreases n - k,
                {
                    let i: usize = if k < n - start {
                        start + k
                    } else {
                        k - (n - start)
                    };
                    proof {
                        lemma_wrap(start as int, k as int, n as int);
                        assert(p.attempts()[k as int] == (i, order@[i as int]));
                    }
                    v.push((i, order[i]));
                    k = k + 1;
                }
                assert(v@ =~= p.attempts());
            },
        }
        v
    }

    /// Remembers, for all clones of the policy, that the look at a place of the
    /// rotation got through.
    pub fn record_success(&self, cursor: &mut TlsFingerprintCursor, rotation_index: usize)
        ensures
            self@.at(final(cursor)@) == self@.at(old(cursor)@).after_success(rotation_index),
    {
        let rotates: bool = match &self.mode {
            TlsFingerprintMode::Rotate(_) => true,
            _ => false,
        };
        if self.sticky && rotates {
            cursor.last_ok = rotation_index;
        }
    }
}

/// Counting on from a place of a circle.
proof fn lemma_wrap(start: int, k: int, n: int)
    requires
        0 <= start < n,
        0 <= k < n,
    ensures
        (start + k) % n == if k < n - start { start + k } else { k - (n - start) },
{
    if k < n - start {
        vstd::arithmetic::div_mod::lemma_small_mod((start + k) as nat, n as nat);
    } else {
        vstd::arithmetic::div_mod::lemma_mod_add_multiples_vanish(k - (n - start), n);
        vstd::arithmetic::div_mod::lemma_small_mod((k - (n - start)) as nat, n as nat);
        assert(n + (k - (n - start)) == start + k);
    }
}

/// A rotation tries every look once: each place comes up, and no place twice.
pub proof fn rotation_covers_every_look(p: Policy, order: Seq<TlsFingerprint>, place: usize)
    requires
        p.choice == Choice::Rotate(order),
        place < order.len() <= usize::MAX,
    ensures
        p.attempts().len() == order.len(),
        p.attempts().contains((place, order[place as int])),
        forall|i: int, j: int|
            0 <= i < j < order.len() ==> (#[trigger] p.attempts()[i]).0 != (
            #[trigger] p.attempts()[j]).0,
{
    let n = order.len() as int;
    let start = p.start(order.len()) as int;
    assert(0 <= start < n) by {
        if p.sticky {
            vstd::arithmetic::div_mod::lemma_mod_bound(p.last_ok as int, n);
        }
    }
    let k = if place >= start { place - start } else { place - start + n };
    lemma_wrap(start, k, n);
    assert(p.attempts()[k] == (place, order[place as int]));
    assert forall|i: int, j: int| 0 <= i < j < n implies (#[trigger] p.attempts()[i]).0 != (
    #[trigger] p.attempts()[j]).0 by {
        lemma_wrap(start, i, n);
        lemma_wrap(start, j, n);
    }
}

/// The look that got through is the first that a sticky rotation tries next, and a
/// rotation that is not sticky begins at its head.
pub proof fn last_success_comes_first(p: Policy, order: Seq<TlsFingerprint>, place: usize)
    requires
        p.choice == Choice::Rotate(order),
        place < order.len(),
    ensures
        p.sticky ==> p.after_success(place).attempts()[0] == (place, order[place as int]),
        !p.sticky ==> p.after_success(place).attempts()[0] == (0usize, order[0]),
{
    let n = order.len() as int;
    vstd::arithmetic::div_mod::lemma_small_mod(place as nat, n as nat);
    lemma_wrap(place as int, 0, n);
    lemma_wrap(0, 0, n);
}

/// A success of one clone of a sticky rotation is where every clone begins next, and
/// one of any other policy changes nothing.
pub proof fn a_success_moves_every_clone(p: Rule, clone: Rule, last_ok: usize, place: usize)
    requires
        clone == p,
        p.choice matches Choice::Rotate(order) ==> place < order.len(),
    ensures
        ({
            let after = p.at(last_ok).after_success(place).last_ok;
            &&& p.choice is Rotate && p.sticky ==> {
                let look = p.choice->Rotate_0[place as int];
                &&& p.at(after).attempts()[0] == (place, look)
                &&& clone.at(after).attempts()[0] == (place, look)
            }
            &&& !(p.choice is Rotate && p.sticky) ==> clone.at(after).attempts() == clone.at(
                last_ok,
            ).attempts()
        }),
{
    if p.choice is Rotate {
        last_success_comes_first(p.at(last_ok), p.choice->Rotate_0, place);
    }
}

/// No policy is without a look to try.
pub proof fn there_is_always_a_look(p: Policy)
    requires
        p.choice matches Choice::Rotate(order) ==> order.len() > 0,
    ensures
        p.attempts().len() > 0,
{
}

/// Each browser is told its own lists: Chrome on a desk and on a phone those of Chrome,
/// Firefox those of Firefox, Safari on a desk and on a phone those of Safari. Only
/// Chrome varies the order of its extensions; all mix in values without meaning.
pub proof fn every_browser_has_its_own_lists(fp: TlsFingerprint, p: FingerprintProfile)
    requires
        call_ensures(FingerprintProfile::resolve, (fp,), p),
    ensures
        fp == TlsFingerprint::Chrome || fp == TlsFingerprint::AndroidChrome ==> {
            &&& p.tls12_ciphers@
                == "ECDHE-ECDSA-AES128-GCM-SHA256:ECDHE-RSA-AES128-GCM-SHA256:ECDHE-ECDSA-CHACHA20-POLY1305:ECDHE-RSA-CHACHA20-POLY1305:ECDHE-ECDSA-AES256-GCM-SHA384:ECDHE-RSA-AES256-GCM-SHA384:AES128-GCM-SHA256:AES256-GCM-SHA384:AES128-SHA:AES256-SHA"@
            &&& p.curves@ == "X25519:P-256:P-384"@
            &&& p.sigalgs@
                == "ecdsa_secp256r1_sha256:rsa_pss_rsae_sha256:rsa_pkcs1_sha256:ecdsa_secp384r1_sha384:rsa_pss_rsae_sha384:rsa_pkcs1_sha384:rsa_pss_rsae_sha512:rsa_pkcs1_sha512"@
            &&& p.permute_extensions
        },
        fp == TlsFingerprint::Firefox ==> {
            &&& p.tls12_ciphers@
                == "ECDHE-ECDSA-AES128-GCM-SHA256:ECDHE-RSA-AES128-GCM-SHA256:ECDHE-ECDSA-CHACHA20-POLY1305:ECDHE-RSA-CHACHA20-POLY1305:ECDHE-ECDSA-AES256-GCM-SHA384:ECDHE-RSA-AES256-GCM-SHA384:ECDHE-ECDSA-AES256-SHA:ECDHE-ECDSA-AES128-SHA:ECDHE-RSA-AES128-SHA:ECDHE-RSA-AES256-SHA:AES128-GCM-SHA256:AES256-GCM-SHA384:AES128-SHA:AES256-SHA"@
            &&& p.curves@ == "X25519:P-256:P-384:P-521"@
            &&& p.sigalgs@
                == "ecdsa_secp256r1_sha256:ecdsa_secp384r1_sha384:ecdsa_secp521r1_sha512:rsa_pss_rsae_sha256:rsa_pss_rsae_sha384:rsa_pss_rsae_sha512:rsa_pkcs1_sha256:rsa_pkcs1_sha384:rsa_pkcs1_sha512:ecdsa_sha1:rsa_pkcs1_sha1"@
            &&& !p.permute_extensions
        },
        fp == TlsFingerprint::Safari || fp == TlsFingerprint::IosSafari ==> {
            &&& p.tls12_ciphers@
                == "ECDHE-ECDSA-AES256-GCM-SHA384:ECDHE-ECDSA-AES128-GCM-SHA256:ECDHE-ECDSA-CHACHA20-POLY1305:ECDHE-RSA-AES256-GCM-SHA384:ECDHE-RSA-AES128-GCM-SHA256:ECDHE-RSA-CHACHA20-POLY1305:ECDHE-ECDSA-AES256-SHA:ECDHE-ECDSA-AES128-SHA:ECDHE-RSA-AES256-SHA:ECDHE-RSA-AES128-SHA:AES256-GCM-SHA384:AES128-GCM-SHA256:AES256-SHA:AES128-SHA"@
            &&& p.curves@ == "X25519:P-256:P-384:P-521"@
            &&& p.sigalgs@
                == "ecdsa_secp256r1_sha256:rsa_pss_rsae_sha256:rsa_pkcs1_sha256:ecdsa_secp384r1_sha384:ecdsa_sha1:rsa_pss_rsae_sha384:rsa_pkcs1_sha384:rsa_pkcs1_sha1:rsa_pss_rsae_sha512:rsa_pkcs1_sha512"@
            &&& !p.permute_extensions
        },
        fp == TlsFingerprint::Chrome ==> p.label@ == "chrome"@,
        fp == TlsFingerprint::AndroidChrome ==> p.label@ == "android"@,
        fp == TlsFingerprint::Firefox ==> p.label@ == "firefox"@,
        fp == TlsFingerprint::Safari ==> p.label@ == "safari"@,
        fp == TlsFingerprint::IosSafari ==> p.label@ == "ios"@,
        fp == TlsFingerprint::Randomized ==> p.label@ == "random"@ && p.permute_extensions,
        p.grease,
{
}

/// Whose browser a look is of.
pub open spec fn maker(fp: TlsFingerprint) -> int {
    match fp {
        TlsFingerprint::Chrome | TlsFingerprint::AndroidChrome => 0,
        TlsFingerprint::Firefox => 1,
        TlsFingerprint::Safari | TlsFingerprint::IosSafari => 2,
        TlsFingerprint::Randomized => 3,
    }
}

/// Two looks of browsers of different makers differ in the ciphers and in the signatures
/// that they name, so that moving on from a blocked one is a change; two of the same
/// maker name the same.
pub proof fn different_browsers_look_different(
    a: TlsFingerprint,
    b: TlsFingerprint,
    p: FingerprintProfile,
    q: FingerprintProfile,
)
    requires
        call_ensures(FingerprintProfile::resolve, (a,), p),
        call_ensures(FingerprintProfile::resolve, (b,), q),
        a != TlsFingerprint::Randomized,
        b != TlsFingerprint::Randomized,
    ensures
        p.tls12_ciphers@ == q.tls12_ciphers@ <==> maker(a) == maker(b),
        p.sigalgs@ == q.sigalgs@ <==> maker(a) == maker(b),
        p.permute_extensions <==> maker(a) == 0,
{
    reveal_strlit(
        "ECDHE-ECDSA-AES128-GCM-SHA256:ECDHE-RSA-AES128-GCM-SHA256:ECDHE-ECDSA-CHACHA20-POLY1305:ECDHE-RSA-CHACHA20-POLY1305:ECDHE-ECDSA-AES256-GCM-SHA384:ECDHE-RSA-AES256-GCM-SHA384:AES128-GCM-SHA256:AES256-GCM-SHA384:AES128-SHA:AES256-SHA",
    );
    reveal_strlit(
        "ECDHE-ECDSA-AES128-GCM-SHA256:ECDHE-RSA-AES128-GCM-SHA256:ECDHE-ECDSA-CHACHA20-POLY1305:ECDHE-RSA-CHACHA20-POLY1305:ECDHE-ECDSA-AES256-GCM-SHA384:ECDHE-RSA-AES256-GCM-SHA384:ECDHE-ECDSA-AES256-SHA:ECDHE-ECDSA-AES128-SHA:ECDHE-RSA-AES128-SHA:ECDHE-RSA-AES256-SHA:AES128-GCM-SHA256:AES256-GCM-SHA384:AES128-SHA:AES256-SHA",
    );
    reveal_strlit(
        "ECDHE-ECDSA-AES256-GCM-SHA384:ECDHE-ECDSA-AES128-GCM-SHA256:ECDHE-ECDSA-CHACHA20-POLY1305:ECDHE-RSA-AES256-GCM-SHA384:ECDHE-RSA-AES128-GCM-SHA256:ECDHE-RSA-CHACHA20-POLY1305:ECDHE-ECDSA-AES256-SHA:ECDHE-ECDSA-AES128-SHA:ECDHE-RSA-AES256-SHA:ECDHE-RSA-AES128-SHA:AES256-GCM-SHA384:AES128-GCM-SHA256:AES256-SHA:AES128-SHA",
    );
    reveal_strlit(
        "ecdsa_secp256r1_sha256:rsa_pss_rsae_sha256:rsa_pkcs1_sha256:ecdsa_secp384r1_sha384:rsa_pss_rsae_sha384:rsa_pkcs1_sha384:rsa_pss_rsae_sha512:rsa_pkcs1_sha512",
    );
    reveal_strlit(
        "ecdsa_secp256r1_sha256:ecdsa_secp384r1_sha384:ecdsa_secp521r1_sha512:rsa_pss_rsae_sha256:rsa_pss_rsae_sha384:rsa_pss_rsae_sha512:rsa_pkcs1_sha256:rsa_pkcs1_sha384:rsa_pkcs1_sha512:ecdsa_sha1:rsa_pkcs1_sha1",
    );
    reveal_strlit(
        "ecdsa_secp256r1_sha256:rsa_pss_rsae_sha256:rsa_pkcs1_sha256:ecdsa_secp384r1_sha384:ecdsa_sha1:rsa_pss_rsae_sha384:rsa_pkcs1_sha384:rsa_pkcs1_sha1:rsa_pss_rsae_sha512:rsa_pkcs1_sha512",
    );
    assert(FIREFOX_CIPHERS@[15] == '1');
    assert(SAFARI_CIPHERS@[15] == '2');
    assert(CHROME_CIPHERS@[15] == '1');
    assert(CHROME_CIPHERS@.len() != FIREFOX_CIPHERS@.len());
    assert(FIREFOX_SIGALGS@[23] == 'e');
    assert(SAFARI_SIGALGS@[23] == 'r');
    assert(CHROME_SIGALGS@[23] == 'r');
    assert(CHROME_SIGALGS@.len() != SAFARI_SIGALGS@.len());
}

/// A look is read from any of its names, whatever the case of the letters and the white
/// space around, and from no other text.
pub proof fn looks_are_read_from_their_names(token: &str, r: Option<TlsFingerprint>)
    requires
        call_ensures(TlsFingerprint::parse, (token,), r),
    ensures
        ({
            let t = lowered(trimmed(token@));
            &&& r == Some(TlsFingerprint::Chrome) <==> t == "chrome"@
            &&& r == Some(TlsFingerprint::Firefox) <==> t == "firefox"@ || t == "ff"@
            &&& r == Some(TlsFingerprint::Safari) <==> t == "safari"@
            &&& r == Some(TlsFingerprint::IosSafari) <==> t == "ios"@ || t == "ios_safari"@ || t
                == "ios-safari"@
            &&& r == Some(TlsFingerprint::AndroidChrome) <==> t == "android"@ || t
                == "android_chrome"@ || t == "android-chrome"@
            &&& r == Some(TlsFingerprint::Randomized) <==> t == "random"@ || t == "randomized"@
                || t == "rand"@
        }),
{
    reveal_strlit("chrome");
    reveal_strlit("firefox");
    reveal_strlit("ff");
    reveal_strlit("safari");
    reveal_strlit("ios");
    reveal_strlit("ios_safari");
    reveal_strlit("ios-safari");
    reveal_strlit("android");
    reveal_strlit("android_chrome");
    reveal_strlit("android-chrome");
    reveal_strlit("random");
    reveal_strlit("randomized");
    reveal_strlit("rand");
    assert("chrome"@[0] == 'c');
    assert("firefox"@[0] == 'f');
    assert("ff"@[0] == 'f');
    assert("safari"@[0] == 's');
    assert("ios"@[0] == 'i');
    assert("ios_safari"@[0] == 'i');
    assert("ios-safari"@[0] == 'i');
    assert("android"@[0] == 'a');
    assert("android_chrome"@[0] == 'a');
    assert("android-chrome"@[0] == 'a');
    assert("random"@[0] == 'r');
    assert("randomized"@[0] == 'r');
    assert("rand"@[0] == 'r');
}

/// The name that a look is shown by is read as that look, and no two looks share one.
pub proof fn shown_names_are_read_back(
    fp: TlsFingerprint,
    other: TlsFingerprint,
    s: &'static str,
    o: &'static str,
    r: Option<TlsFingerprint>,
)
    requires
        call_ensures(TlsFingerprint::as_str, (fp,), s),
        call_ensures(TlsFingerprint::as_str, (other,), o),
        call_ensures(TlsFingerprint::parse, (s,), r),
    ensures
        r == Some(fp),
        s@ == o@ ==> fp == other,
{
    names_round_trip(fp);
    names_round_trip(other);
}

/// What is tried for a connection: a fixed look alone; three made-up ones; or every look
/// of a rotation once, in its order, beginning with the one that last got through where
/// the rotation keeps to it, and with its head where not.
pub proof fn attempts_follow_the_policy(
    p: &TlsFingerprintPolicy,
    cursor: &TlsFingerprintCursor,
    v: Vec<(usize, TlsFingerprint)>,
    k: int,
)
    requires
        call_ensures(TlsFingerprintPolicy::attempt_order, (p, cursor), v),
        0 <= k < v@.len(),
        p@.choice is Rotate ==> p@.choice->Rotate_0.len() <= usize::MAX,
    ensures
        p@.choice is Pinned ==> v@.len() == 1 && v@[k] == (0usize, p@.choice->Pinned_0),
        p@.choice is Random ==> v@.len() == 3 && v@[k] == (0usize, TlsFingerprint::Randomized),
        p@.choice is Rotate ==> {
            let order = p@.choice->Rotate_0;
            let n = order.len() as int;
            let start: int = if p@.sticky {
                cursor@ as int % n
            } else {
                0
            };
            &&& v@.len() == n
            &&& v@[k].0 == (start + k) % n
            &&& v@[k].1 == order[v@[k].0 as int]
        },
{
    if p@.choice is Rotate {
        let order = p@.choice->Rotate_0;
        let n = order.len() as int;
        let start = p@.at(cursor@).start(order.len()) as int;
        if p@.sticky {
            vstd::arithmetic::div_mod::lemma_mod_bound(cursor@ as int, n);
        }
        lemma_wrap(start, k, n);
    }
}

/// A success is where the next connection begins, for a rotation that keeps to it; it
/// changes nothing for any other policy.
pub proof fn the_next_connection_begins_with_success(
    p: &TlsFingerprintPolicy,
    cursor: &mut TlsFingerprintCursor,
    place: usize,
    v: Vec<(usize, TlsFingerprint)>,
)
    requires
        call_ensures(TlsFingerprintPolicy::record_success, (p, cursor, place), ()),
        call_ensures(TlsFingerprintPolicy::attempt_order, (p, &*final(cursor)), v),
        p@.choice is Rotate ==> place < p@.choice->Rotate_0.len(),
    ensures
        p@.choice is Rotate && p@.sticky ==> v@[0] == (
            place,
            p@.choice->Rotate_0[place as int],
        ),
        !(p@.choice is Rotate && p@.sticky) ==> final(cursor)@ == old(cursor)@,
{
    if p@.choice is Rotate && p@.sticky {
        let order = p@.choice->Rotate_0;
        assert(final(cursor)@ == place) by {
            assert(p@.at(final(cursor)@).last_ok == final(cursor)@);
        }
        last_success_comes_first(p@.at(old(cursor)@), order, place);
    } else {
        assert(p@.at(final(cursor)@).last_ok == final(cursor)@);
    }
}

/// The policies that can be asked for: a fixed look, looks in turn in the given order,
/// made-up looks; and Chrome, Firefox and Safari in turn where nothing is asked for.
pub proof fn policies_are_what_was_asked_for(
    fp: TlsFingerprint,
    order: Vec<TlsFingerprint>,
    sticky: bool,
    pinned: TlsFingerprintPolicy,
    rotating: TlsFingerprintPolicy,
    random: TlsFingerprintPolicy,
)
    requires
        call_ensures(TlsFingerprintPolicy::pinned, (fp,), pinned),
        call_ensures(TlsFingerprintPolicy::rotate, (order, sticky), rotating),
        call_ensures(TlsFingerprintPolicy::random, (), random),
    ensures
        pinned@.choice == Choice::Pinned(fp),
        random@.choice == Choice::Random,
        rotating@.sticky == sticky,
        order@.len() > 0 ==> rotating@.choice == Choice::Rotate(order@),
        order@.len() == 0 ==> rotating@.choice == Choice::Rotate(seq![TlsFingerprint::Chrome]),
        Rule::standard().choice == Choice::Rotate(
            seq![TlsFingerprint::Chrome, TlsFingerprint::Firefox, TlsFingerprint::Safari],
        ),
        Rule::standard().sticky,
{
}

/// A made-up look names between four and ten ciphers of those that are drawn from, none
/// twice and one that authenticates first; X25519 before the three other groups, each
/// once; and the signatures of Chrome.
pub proof fn made_up_looks_are_made_of_real_parts(
    order: &Vec<usize>,
    draw: u32,
    tail: &Vec<usize>,
    p: FingerprintProfile,
) -> (names: Seq<usize>)
    requires
        is_order(order@, 10),
        is_order(tail@, 3),
        call_ensures(FingerprintProfile::from_draw, (order, draw, tail), p),
    ensures
        names.len() == 4 + draw % 7,
        forall|i: int| 0 <= i < names.len() ==> 0 <= #[trigger] names[i] < 10,
        forall|i: int, j: int|
            0 <= i < j < names.len() ==> #[trigger] names[i] != #[trigger] names[j],
        forall|i: int|
            1 <= i < names.len() && #[trigger] names[i] != order@[i] ==> names[i] == order@[0]
                && names[0] == order@[i],
        is_aead(pool_name(names[0])),
        p.tls12_ciphers@ == colon_joined(
            Seq::new(names.len(), |i: int| pool_name(names[i])),
        ),
        p.curves@ == "X25519:"@ + (tail_name(tail@[0]) + ":"@ + tail_name(tail@[1]) + ":"@
            + tail_name(tail@[2])),
        p.sigalgs@
            == "ecdsa_secp256r1_sha256:rsa_pss_rsae_sha256:rsa_pkcs1_sha256:ecdsa_secp384r1_sha384:rsa_pss_rsae_sha384:rsa_pkcs1_sha384:rsa_pss_rsae_sha512:rsa_pkcs1_sha512"@,
        p.label@ == "random"@,
        p.grease && p.permute_extensions,
{
    made_up_looks_are_plausible(order@, draw, tail@);
    let led = aead_led(order@);
    let names = led.take(drawn_ciphers(order@, draw).len() as int);
    assert(Seq::new(names.len(), |i: int| pool_name(names[i])) =~= drawn_ciphers(order@, draw));
    assert(drawn_ciphers(order@, draw)[0] == pool_name(led[0]));
    let t = drawn_tail(tail@);
    reveal_with_fuel(colon_joined, 4);
    assert(t.drop_last().drop_last() =~= seq![t[0]]);
    assert(t.drop_last().last() == t[1]);
    assert(t.last() == t[2]);
    assert(colon_joined(t) =~= tail_name(tail@[0]) + ":"@ + tail_name(tail@[1]) + ":"@
        + tail_name(tail@[2]));
    names
}

/// Names are joined in their order, with one colon between each two of them.
pub proof fn names_are_joined_by_colons(names: Seq<Seq<char>>, name: Seq<char>)
    ensures
        colon_joined(Seq::<Seq<char>>::empty()).len() == 0,
        colon_joined(seq![name]) == name,
        names.len() > 0 ==> colon_joined(names.push(name)) == colon_joined(names).push(':') + name,
{
    reveal_strlit(":");
    if names.len() > 0 {
        assert(names.push(name).drop_last() =~= names);
        assert(colon_joined(names) + ":"@ =~= colon_joined(names).push(':'));
    }
}

/// No two of the parts that a made-up look is made of are the same.
pub proof fn parts_of_made_up_looks_differ(i: usize, j: usize)
    requires
        i < j,
    ensures
        j < 10 ==> pool_name(i) != pool_name(j),
        j < 3 ==> tail_name(i) != tail_name(j),
{
    reveal_strlit("ECDHE-ECDSA-AES128-GCM-SHA256");
    reveal_strlit("ECDHE-RSA-AES128-GCM-SHA256");
    reveal_strlit("ECDHE-ECDSA-CHACHA20-POLY1305");
    reveal_strlit("ECDHE-RSA-CHACHA20-POLY1305");
    reveal_strlit("ECDHE-ECDSA-AES256-GCM-SHA384");
    reveal_strlit("ECDHE-RSA-AES256-GCM-SHA384");
    reveal_strlit("ECDHE-ECDSA-AES256-SHA");
    reveal_strlit("ECDHE-RSA-AES256-SHA");
    reveal_strlit("AES128-GCM-SHA256");
    reveal_strlit("AES256-GCM-SHA384");
    reveal_strlit("P-256");
    reveal_strlit("P-384");
    reveal_strlit("P-521");
    if j < 10 {
        let a = pool_name(i);
        let b = pool_name(j);
        if a.len() == b.len() {
            assert(a[12] != b[12] || a[15] != b[15] || a[10] != b[10] || a[13] != b[13] || a[3]
                != b[3]);
        }
    }
    if j < 3 {
        assert(tail_name(i)[2] != tail_name(j)[2] || tail_name(i)[3] != tail_name(j)[3]);
    }
}

} // verus!
