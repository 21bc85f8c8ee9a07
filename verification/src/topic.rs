//! The topic router: under which topics an event is published.
//!
//! A topic is a path of segments joined by `/`. Its first segment is the
//! event's channel name; the others are the fields by which subscribers
//! filter, in a fixed order per kind of event.

use vstd::prelude::*;
use vstd::string::StringExecFns;
use crate::decimal::{decimal, lemma_decimal_avoids, lemma_decimal_injective, push_decimal};
use crate::event::{
    CancelOrderNotif, ChangeEvent, ChangeOrderSizeNotif, EventKind, FillNotif,
    PlaceLimitOrderNotif, PlaceMarketOrderNotif, PlaceSwapOrderNotif,
};

verus! {

/// The separator between two segments of a topic.
pub open spec fn sep() -> Seq<char> {
    seq!['/']
}

/// Whether a segment holds no separator.
pub open spec fn slash_free(s: Seq<char>) -> bool {
    !s.contains('/')
}

/// The fields of an event that decide where it is published.
#[verifier::ext_equal]
pub enum Route {
    PlaceLimitOrder { market: u128, user: Seq<char>, custodian: u128, integrator: Seq<char> },
    PlaceMarketOrder { market: u128, user: Seq<char>, custodian: u128, integrator: Seq<char> },
    PlaceSwapOrder { market: u128, integrator: Seq<char>, signing_account: Seq<char> },
    ChangeOrderSize { market: u128, user: Seq<char>, custodian: u128 },
    CancelOrder { market: u128, user: Seq<char>, custodian: u128 },
    Fill {
        market: u128,
        maker_address: Seq<char>,
        maker_custodian: u128,
        taker_address: Seq<char>,
        taker_custodian: u128,
    },
}

/// The topic `channel/market/text/number`.
pub open spec fn account_topic(kind: EventKind, market: u128, text: Seq<char>, number: u128) -> Seq<
    char,
> {
    kind.channel_spec() + sep() + decimal(market as nat) + sep() + text + sep() + decimal(
        number as nat,
    )
}

/// The topic `channel/market/user/custodian/integrator`.
pub open spec fn order_topic(
    kind: EventKind,
    market: u128,
    user: Seq<char>,
    custodian: u128,
    integrator: Seq<char>,
) -> Seq<char> {
    account_topic(kind, market, user, custodian) + sep() + integrator
}

/// The topic `channel/market/integrator/signing_account`.
pub open spec fn swap_topic(market: u128, integrator: Seq<char>, signing_account: Seq<char>) -> Seq<
    char,
> {
    EventKind::PlaceSwapOrder.channel_spec() + sep() + decimal(market as nat) + sep() + integrator
        + sep() + signing_account
}

impl Route {
    /// The kind of event that the route belongs to.
    pub open spec fn kind(self) -> EventKind {
        match self {
            Route::PlaceLimitOrder { .. } => EventKind::PlaceLimitOrder,
            Route::PlaceMarketOrder { .. } => EventKind::PlaceMarketOrder,
            Route::PlaceSwapOrder { .. } => EventKind::PlaceSwapOrder,
            Route::ChangeOrderSize { .. } => EventKind::ChangeOrderSize,
            Route::CancelOrder { .. } => EventKind::CancelOrder,
            Route::Fill { .. } => EventKind::Fill,
        }
    }

    /// The topics of the route, in the order in which they are published to:
    /// one for every kind but a fill, which goes to the maker's topic and
    /// then to the taker's.
    pub open spec fn topics(self) -> Seq<Seq<char>> {
        match self {
            Route::PlaceLimitOrder { market, user, custodian, integrator } => seq![
                order_topic(EventKind::PlaceLimitOrder, market, user, custodian, integrator),
            ],
            Route::PlaceMarketOrder { market, user, custodian, integrator } => seq![
                order_topic(EventKind::PlaceMarketOrder, market, user, custodian, integrator),
            ],
            Route::PlaceSwapOrder { market, integrator, signing_account } => seq![
                swap_topic(market, integrator, signing_account),
            ],
            Route::ChangeOrderSize { market, user, custodian } => seq![
                account_topic(EventKind::ChangeOrderSize, market, user, custodian),
            ],
            Route::CancelOrder { market, user, custodian } => seq![
                account_topic(EventKind::CancelOrder, market, user, custodian),
            ],
            Route::Fill {
                market,
                maker_address,
                maker_custodian,
                taker_address,
                taker_custodian,
            } => seq![
                account_topic(EventKind::Fill, market, maker_address, maker_custodian),
                account_topic(EventKind::Fill, market, taker_address, taker_custodian),
            ],
        }
    }

    /// Whether the topics can be taken apart again: a text segment that is
    /// followed by another text segment holds no separator.
    pub open spec fn separable(self) -> bool {
        match self {
            Route::PlaceLimitOrder { user, .. } => slash_free(user),
            Route::PlaceMarketOrder { user, .. } => slash_free(user),
            Route::PlaceSwapOrder { integrator, .. } => slash_free(integrator),
            _ => true,
        }
    }
}

impl PlaceLimitOrderNotif {
    /// The fields that decide where the event is published.
    pub open spec fn route(self) -> Route {
        Route::PlaceLimitOrder {
            market: self.market_id,
            user: self.user@,
            custodian: self.custodian_id,
            integrator: self.integrator@,
        }
    }

    /// `place_limit_order/{market}/{user}/{custodian}/{integrator}`
    pub fn topic(&self) -> (t: String)
        ensures
            t@ == order_topic(
                EventKind::PlaceLimitOrder,
                self.market_id,
                self.user@,
                self.custodian_id,
                self.integrator@,
            ),
    {
        let mut t = account_path(
            EventKind::PlaceLimitOrder,
            self.market_id,
            self.user.as_str(),
            self.custodian_id,
        );
        push_segment(&mut t, self.integrator.as_str());
        t
    }
}

impl PlaceMarketOrderNotif {
    /// The fields that decide where the event is published.
    pub open spec fn route(self) -> Route {
        Route::PlaceMarketOrder {
            market: self.market_id,
            user: self.user@,
            custodian: self.custodian_id,
            integrator: self.integrator@,
        }
    }

    /// `place_market_order/{market}/{user}/{custodian}/{integrator}`
    pub fn topic(&self) -> (t: String)
        ensures
            t@ == order_topic(
                EventKind::PlaceMarketOrder,
                self.market_id,
                self.user@,
                self.custodian_id,
                self.integrator@,
            ),
    {
        let mut t = account_path(
            EventKind::PlaceMarketOrder,
            self.market_id,
            self.user.as_str(),
            self.custodian_id,
        );
        push_segment(&mut t, self.integrator.as_str());
        t
    }
}

impl PlaceSwapOrderNotif {
    /// The fields that decide where the event is published.
    pub open spec fn route(self) -> Route {
        Route::PlaceSwapOrder {
            market: self.market_id,
            integrator: self.integrator@,
            signing_account: self.signing_account@,
        }
    }

    /// `place_swap_order/{market}/{integrator}/{signing_account}`
    pub fn topic(&self) -> (t: String)
        ensures
            t@ == swap_topic(self.market_id, self.integrator@, self.signing_account@),
    {
        let mut t = String::from_str(EventKind::PlaceSwapOrder.channel());
        push_number(&mut t, self.market_id);
        push_segment(&mut t, self.integrator.as_str());
        push_segment(&mut t, self.signing_account.as_str());
        t
    }
}

impl ChangeOrderSizeNotif {
    /// The fields that decide where the event is published.
    pub open spec fn route(self) -> Route {
        Route::ChangeOrderSize {
            market: self.market_id,
            user: self.user@,
            custodian: self.custodian_id,
        }
    }

    /// `change_order_size/{market}/{user}/{custodian}`
    pub fn topic(&self) -> (t: String)
        ensures
            t@ == account_topic(
                EventKind::ChangeOrderSize,
                self.market_id,
                self.user@,
                self.custodian_id,
            ),
    {
        account_path(
            EventKind::ChangeOrderSize,
            self.market_id,
            self.user.as_str(),
            self.custodian_id,
        )
    }
}

impl CancelOrderNotif {
    /// The fields that decide where the event is published.
    pub open spec fn route(self) -> Route {
        Route::CancelOrder {
            market: self.market_id,
            user: self.user@,
            custodian: self.custodian_id,
        }
    }

    /// `cancel_order/{market}/{user}/{custodian}`
    pub fn topic(&self) -> (t: String)
        ensures
            t@ == account_topic(
                EventKind::CancelOrder,
                self.market_id,
                self.user@,
                self.custodian_id,
            ),
    {
        account_path(EventKind::CancelOrder, self.market_id, self.user.as_str(), self.custodian_id)
    }
}

impl FillNotif {
    /// The fields that decide where the event is published.
    pub open spec fn route(self) -> Route {
        Route::Fill {
            market: self.market_id,
            maker_address: self.maker_address@,
            maker_custodian: self.maker_custodian_id,
            taker_address: self.taker_address@,
            taker_custodian: self.taker_custodian_id,
        }
    }

    /// `fill/{market}/{maker_address}/{maker_custodian}`
    pub fn maker_topic(&self) -> (t: String)
        ensures
            t@ == account_topic(
                EventKind::Fill,
                self.market_id,
                self.maker_address@,
                self.maker_custodian_id,
            ),
    {
        account_path(
            EventKind::Fill,
            self.market_id,
            self.maker_address.as_str(),
            self.maker_custodian_id,
        )
    }

    /// `fill/{market}/{taker_address}/{taker_custodian}`
    pub fn taker_topic(&self) -> (t: String)
        ensures
            t@ == account_topic(
                EventKind::Fill,
                self.market_id,
                self.taker_address@,
                self.taker_custodian_id,
            ),
    {
        account_path(
            EventKind::Fill,
            self.market_id,
            self.taker_address.as_str(),
            self.taker_custodian_id,
        )
    }
}

/// The characters of each text of a list.
pub open spec fn texts(v: Seq<String>) -> Seq<Seq<char>> {
    Seq::new(v.len(), |i: int| v[i]@)
}

impl ChangeEvent {
    /// The fields that decide where the event is published.
    pub open spec fn route(self) -> Route {
        match self {
            ChangeEvent::PlaceLimitOrder(e) => e.route(),
            ChangeEvent::PlaceMarketOrder(e) => e.route(),
            ChangeEvent::PlaceSwapOrder(e) => e.route(),
            ChangeEvent::ChangeOrderSize(e) => e.route(),
            ChangeEvent::CancelOrder(e) => e.route(),
            ChangeEvent::Fill(e) => e.route(),
        }
    }

    /// The topics under which the event is published, in order: one for
    /// every kind but a fill, which has the maker's and then the taker's.
    pub fn topics(&self) -> (v: Vec<String>)
        ensures
            texts(v@) == self.route().topics(),
            self.kind_spec() != EventKind::Fill ==> v@.len() == 1,
            self.kind_spec() == EventKind::Fill ==> v@.len() == 2,
    {
        let mut v: Vec<String> = Vec::new();
        match self {
            ChangeEvent::PlaceLimitOrder(e) => {
                v.push(e.topic());
            },
            ChangeEvent::PlaceMarketOrder(e) => {
                v.push(e.topic());
            },
            ChangeEvent::PlaceSwapOrder(e) => {
                v.push(e.topic());
            },
            ChangeEvent::ChangeOrderSize(e) => {
                v.push(e.topic());
            },
            ChangeEvent::CancelOrder(e) => {
                v.push(e.topic());
            },
            ChangeEvent::Fill(e) => {
                v.push(e.maker_topic());
                v.push(e.taker_topic());
            },
        }
        assert(texts(v@) =~= self.route().topics());
        v
    }
}

/// Appends a separator and a text segment.
fn push_segment(out: &mut String, segment: &str)
    ensures
        final(out)@ == old(out)@ + sep() + segment@,
{
    proof {
        reveal_strlit("/");
    }
    out.append("/");
    out.append(segment);
    assert("/"@ =~= sep());
}

/// Appends a separator and a number in decimal notation.
fn push_number(out: &mut String, n: u128)
    ensures
        final(out)@ == old(out)@ + sep() + decimal(n as nat),
{
    proof {
        reveal_strlit("/");
    }
    out.append("/");
    assert("/"@ =~= sep());
    push_decimal(out, n);
}

/// Builds `channel/market/text/number`.
fn account_path(kind: EventKind, market: u128, text: &str, number: u128) -> (t: String)
    ensures
        t@ == account_topic(kind, market, text@, number),
{
    let mut t = String::from_str(kind.channel());
    push_number(&mut t, market);
    push_segment(&mut t, text);
    push_number(&mut t, number);
    t
}

/// Two paths that begin with separator-free segments begin with the same
/// segment, and go on alike.
pub proof fn lemma_split_first(x: Seq<char>, r: Seq<char>, y: Seq<char>, t: Seq<char>)
    requires
        slash_free(x),
        slash_free(y),
        x + sep() + r == y + sep() + t,
    ensures
        x == y,
        r == t,
{
    let a = x + sep() + r;
    let b = y + sep() + t;
    if x.len() < y.len() {
        assert(a[x.len() as int] == '/');
        assert(b[x.len() as int] == y[x.len() as int]);
        assert(y.contains('/'));
    }
    if y.len() < x.len() {
        assert(b[y.len() as int] == '/');
        assert(a[y.len() as int] == x[y.len() as int]);
        assert(x.contains('/'));
    }
    assert(x.len() == y.len());
    assert forall|i: int| 0 <= i < x.len() implies x[i] == y[i] by {
        assert(a[i] == x[i]);
        assert(b[i] == y[i]);
    }
    assert(x =~= y);
    assert(a.len() == b.len());
    assert forall|i: int| 0 <= i < r.len() implies r[i] == t[i] by {
        assert(a[x.len() + 1 + i] == r[i]);
        assert(b[y.len() + 1 + i] == t[i]);
    }
    assert(r =~= t);
}

/// Two paths that end in separator-free segments end in the same segment,
/// and begin alike.
pub proof fn lemma_split_last(x: Seq<char>, r: Seq<char>, y: Seq<char>, t: Seq<char>)
    requires
        slash_free(r),
        slash_free(t),
        x + sep() + r == y + sep() + t,
    ensures
        x == y,
        r == t,
{
    let a = x + sep() + r;
    let b = y + sep() + t;
    assert(a.len() == x.len() + 1 + r.len());
    assert(b.len() == y.len() + 1 + t.len());
    if r.len() < t.len() {
        assert(a[x.len() as int] == '/');
        assert(b[x.len() as int] == t[x.len() - y.len() - 1]);
        assert(t.contains('/'));
    }
    if t.len() < r.len() {
        assert(b[y.len() as int] == '/');
        assert(a[y.len() as int] == r[y.len() - x.len() - 1]);
        assert(r.contains('/'));
    }
    assert(r.len() == t.len());
    assert forall|i: int| 0 <= i < x.len() implies x[i] == y[i] by {
        assert(a[i] == x[i]);
        assert(b[i] == y[i]);
    }
    assert(x =~= y);
    assert forall|i: int| 0 <= i < r.len() implies r[i] == t[i] by {
        assert(a[x.len() + 1 + i] == r[i]);
        assert(b[y.len() + 1 + i] == t[i]);
    }
    assert(r =~= t);
}

/// No channel name holds a separator, and no two kinds share a channel name.
pub proof fn lemma_channels(a: EventKind, b: EventKind)
    ensures
        slash_free(a.channel_spec()),
        a.channel_spec() == b.channel_spec() ==> a == b,
{
    crate::event::lemma_channel_roundtrip(a);
    crate::event::lemma_channel_roundtrip(b);
    reveal_strlit("place_limit_order");
    reveal_strlit("place_market_order");
    reveal_strlit("place_swap_order");
    reveal_strlit("change_order_size");
    reveal_strlit("cancel_order");
    reveal_strlit("fill");
    let s = a.channel_spec();
    if s.contains('/') {
        let i = choose|i: int| 0 <= i < s.len() && s[i] == '/';
        assert(s[i] == '/');
    }
}

/// A topic `channel/market/text/number` gives back its four parts.
pub proof fn lemma_account_topic_injective(
    k1: EventKind,
    m1: u128,
    t1: Seq<char>,
    n1: u128,
    k2: EventKind,
    m2: u128,
    t2: Seq<char>,
    n2: u128,
)
    requires
        account_topic(k1, m1, t1, n1) == account_topic(k2, m2, t2, n2),
    ensures
        k1 == k2,
        m1 == m2,
        t1 == t2,
        n1 == n2,
{
    lemma_channels(k1, k2);
    lemma_channels(k2, k1);
    lemma_decimal_avoids(m1 as nat, '/');
    lemma_decimal_avoids(m2 as nat, '/');
    lemma_decimal_avoids(n1 as nat, '/');
    lemma_decimal_avoids(n2 as nat, '/');
    let head1 = k1.channel_spec();
    let head2 = k2.channel_spec();
    let d1 = decimal(m1 as nat);
    let d2 = decimal(m2 as nat);
    let e1 = decimal(n1 as nat);
    let e2 = decimal(n2 as nat);
    let r1 = d1 + sep() + t1 + sep() + e1;
    let r2 = d2 + sep() + t2 + sep() + e2;
    assert(account_topic(k1, m1, t1, n1) =~= head1 + sep() + r1);
    assert(account_topic(k2, m2, t2, n2) =~= head2 + sep() + r2);
    lemma_split_first(head1, r1, head2, r2);
    let q1 = t1 + sep() + e1;
    let q2 = t2 + sep() + e2;
    assert(r1 =~= d1 + sep() + q1);
    assert(r2 =~= d2 + sep() + q2);
    lemma_split_first(d1, q1, d2, q2);
    lemma_split_last(t1, e1, t2, e2);
    lemma_decimal_injective(m1 as nat, m2 as nat);
    lemma_decimal_injective(n1 as nat, n2 as nat);
}

/// A topic `channel/market/user/custodian/integrator` gives back its five
/// parts, provided that neither user holds a separator.
pub proof fn lemma_order_topic_injective(
    k1: EventKind,
    m1: u128,
    u1: Seq<char>,
    c1: u128,
    i1: Seq<char>,
    k2: EventKind,
    m2: u128,
    u2: Seq<char>,
    c2: u128,
    i2: Seq<char>,
)
    requires
        slash_free(u1),
        slash_free(u2),
        order_topic(k1, m1, u1, c1, i1) == order_topic(k2, m2, u2, c2, i2),
    ensures
        k1 == k2,
        m1 == m2,
        u1 == u2,
        c1 == c2,
        i1 == i2,
{
    lemma_channels(k1, k2);
    lemma_channels(k2, k1);
    lemma_decimal_avoids(m1 as nat, '/');
    lemma_decimal_avoids(m2 as nat, '/');
    lemma_decimal_avoids(c1 as nat, '/');
    lemma_decimal_avoids(c2 as nat, '/');
    let head1 = k1.channel_spec();
    let head2 = k2.channel_spec();
    let d1 = decimal(m1 as nat);
    let d2 = decimal(m2 as nat);
    let e1 = decimal(c1 as nat);
    let e2 = decimal(c2 as nat);
    let r1 = d1 + sep() + u1 + sep() + e1 + sep() + i1;
    let r2 = d2 + sep() + u2 + sep() + e2 + sep() + i2;
    assert(order_topic(k1, m1, u1, c1, i1) =~= head1 + sep() + r1);
    assert(order_topic(k2, m2, u2, c2, i2) =~= head2 + sep() + r2);
    lemma_split_first(head1, r1, head2, r2);
    let q1 = u1 + sep() + e1 + sep() + i1;
    let q2 = u2 + sep() + e2 + sep() + i2;
    assert(r1 =~= d1 + sep() + q1);
    assert(r2 =~= d2 + sep() + q2);
    lemma_split_first(d1, q1, d2, q2);
    let w1 = e1 + sep() + i1;
    let w2 = e2 + sep() + i2;
    assert(q1 =~= u1 + sep() + w1);
    assert(q2 =~= u2 + sep() + w2);
    lemma_split_first(u1, w1, u2, w2);
    lemma_split_first(e1, i1, e2, i2);
    lemma_decimal_injective(m1 as nat, m2 as nat);
    lemma_decimal_injective(c1 as nat, c2 as nat);
}

/// A topic `place_swap_order/market/integrator/signing_account` gives back
/// its parts, provided that neither integrator holds a separator.
pub proof fn lemma_swap_topic_injective(
    m1: u128,
    i1: Seq<char>,
    s1: Seq<char>,
    m2: u128,
    i2: Seq<char>,
    s2: Seq<char>,
)
    requires
        slash_free(i1),
        slash_free(i2),
        swap_topic(m1, i1, s1) == swap_topic(m2, i2, s2),
    ensures
        m1 == m2,
        i1 == i2,
        s1 == s2,
{
    lemma_channels(EventKind::PlaceSwapOrder, EventKind::PlaceSwapOrder);
    lemma_decimal_avoids(m1 as nat, '/');
    lemma_decimal_avoids(m2 as nat, '/');
    let p = EventKind::PlaceSwapOrder.channel_spec();
    let d1 = decimal(m1 as nat);
    let d2 = decimal(m2 as nat);
    let r1 = d1 + sep() + i1 + sep() + s1;
    let r2 = d2 + sep() + i2 + sep() + s2;
    assert(swap_topic(m1, i1, s1) =~= p + sep() + r1);
    assert(swap_topic(m2, i2, s2) =~= p + sep() + r2);
    lemma_split_first(p, r1, p, r2);
    let q1 = i1 + sep() + s1;
    let q2 = i2 + sep() + s2;
    assert(r1 =~= d1 + sep() + q1);
    assert(r2 =~= d2 + sep() + q2);
    lemma_split_first(d1, q1, d2, q2);
    lemma_split_first(i1, s1, i2, s2);
    lemma_decimal_injective(m1 as nat, m2 as nat);
}

/// Every topic begins with the channel name of its kind and a separator.
proof fn lemma_topic_head(r: Route) -> (rest: Seq<char>)
    ensures
        r.topics().len() >= 1,
        r.topics()[0] == r.kind().channel_spec() + sep() + rest,
{
    match r {
        Route::PlaceLimitOrder { market, user, custodian, integrator } => {
            let rest = decimal(market as nat) + sep() + user + sep() + decimal(custodian as nat)
                + sep() + integrator;
            assert(r.topics()[0] =~= r.kind().channel_spec() + sep() + rest);
            rest
        },
        Route::PlaceMarketOrder { market, user, custodian, integrator } => {
            let rest = decimal(market as nat) + sep() + user + sep() + decimal(custodian as nat)
                + sep() + integrator;
            assert(r.topics()[0] =~= r.kind().channel_spec() + sep() + rest);
            rest
        },
        Route::PlaceSwapOrder { market, integrator, signing_account } => {
            let rest = decimal(market as nat) + sep() + integrator + sep() + signing_account;
            assert(r.topics()[0] =~= r.kind().channel_spec() + sep() + rest);
            rest
        },
        Route::ChangeOrderSize { market, user, custodian } => {
            let rest = decimal(market as nat) + sep() + user + sep() + decimal(custodian as nat);
            assert(r.topics()[0] =~= r.kind().channel_spec() + sep() + rest);
            rest
        },
        Route::CancelOrder { market, user, custodian } => {
            let rest = decimal(market as nat) + sep() + user + sep() + decimal(custodian as nat);
            assert(r.topics()[0] =~= r.kind().channel_spec() + sep() + rest);
            rest
        },
        Route::Fill { market, maker_address, maker_custodian, .. } => {
            let rest = decimal(market as nat) + sep() + maker_address + sep() + decimal(
                maker_custodian as nat,
            );
            assert(r.topics()[0] =~= r.kind().channel_spec() + sep() + rest);
            rest
        },
    }
}

/// Topics are a function of the routing fields and of nothing else, and they
/// tell routes apart: two separable routes have the same topics exactly when
/// they are the same route, that is of the same kind and with the same fields.
pub proof fn lemma_topics_identify_route(a: Route, b: Route)
    requires
        a.separable(),
        b.separable(),
    ensures
        a.topics() == b.topics() <==> a == b,
{
    if a.topics() == b.topics() {
        let ra = lemma_topic_head(a);
        let rb = lemma_topic_head(b);
        lemma_channels(a.kind(), b.kind());
        lemma_channels(b.kind(), a.kind());
        lemma_split_first(a.kind().channel_spec(), ra, b.kind().channel_spec(), rb);
        assert(a.kind() == b.kind());
        assert(a.topics()[0] == b.topics()[0]);
        match (a, b) {
            (
                Route::PlaceLimitOrder { market: m1, user: u1, custodian: c1, integrator: i1 },
                Route::PlaceLimitOrder { market: m2, user: u2, custodian: c2, integrator: i2 },
            ) => {
                lemma_order_topic_injective(
                    EventKind::PlaceLimitOrder,
                    m1,
                    u1,
                    c1,
                    i1,
                    EventKind::PlaceLimitOrder,
                    m2,
                    u2,
                    c2,
                    i2,
                );
            },
            (
                Route::PlaceMarketOrder { market: m1, user: u1, custodian: c1, integrator: i1 },
                Route::PlaceMarketOrder { market: m2, user: u2, custodian: c2, integrator: i2 },
            ) => {
                lemma_order_topic_injective(
                    EventKind::PlaceMarketOrder,
                    m1,
                    u1,
                    c1,
                    i1,
                    EventKind::PlaceMarketOrder,
                    m2,
                    u2,
                    c2,
                    i2,
                );
            },
            (
                Route::PlaceSwapOrder { market: m1, integrator: i1, signing_account: s1 },
                Route::PlaceSwapOrder { market: m2, integrator: i2, signing_account: s2 },
            ) => {
                lemma_swap_topic_injective(m1, i1, s1, m2, i2, s2);
            },
            (
                Route::ChangeOrderSize { market: m1, user: u1, custodian: c1 },
                Route::ChangeOrderSize { market: m2, user: u2, custodian: c2 },
            ) => {
                lemma_account_topic_injective(
                    EventKind::ChangeOrderSize,
                    m1,
                    u1,
                    c1,
                    EventKind::ChangeOrderSize,
                    m2,
                    u2,
                    c2,
                );
            },
            (
                Route::CancelOrder { market: m1, user: u1, custodian: c1 },
                Route::CancelOrder { market: m2, user: u2, custodian: c2 },
            ) => {
                lemma_account_topic_injective(
                    EventKind::CancelOrder,
                    m1,
                    u1,
                    c1,
                    EventKind::CancelOrder,
                    m2,
                    u2,
                    c2,
                );
            },
            (
                Route::Fill {
                    market: m1,
                    maker_address: a1,
                    maker_custodian: c1,
                    taker_address: t1,
                    taker_custodian: d1,
                },
                Route::Fill {
                    market: m2,
                    maker_address: a2,
                    maker_custodian: c2,
                    taker_address: t2,
                    taker_custodian: d2,
                },
            ) => {
                assert(a.topics()[1] == b.topics()[1]);
                lemma_account_topic_injective(
                    EventKind::Fill,
                    m1,
                    a1,
                    c1,
                    EventKind::Fill,
                    m2,
                    a2,
                    c2,
                );
                lemma_account_topic_injective(
                    EventKind::Fill,
                    m1,
                    t1,
                    d1,
                    EventKind::Fill,
                    m2,
                    t2,
                    d2,
                );
            },
            _ => {
                assert(false);
            },
        }
        assert(a =~= b);
    }
}

/// Two events have the same topics exactly when their routing fields agree,
/// provided that their topics can be taken apart.
pub proof fn lemma_topics_follow_fields(a: ChangeEvent, b: ChangeEvent)
    requires
        a.route().separable(),
        b.route().separable(),
    ensures
        a.route().topics() == b.route().topics() <==> a.route() == b.route(),
{
    lemma_topics_identify_route(a.route(), b.route());
}

} // verus!
