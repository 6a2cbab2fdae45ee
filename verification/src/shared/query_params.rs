use vstd::prelude::*;
use vstd::string::{StrSliceExecFns, StringExecFns};

verus! {

/// A list of parameters: each a key and a value.
pub type Params = Seq<(Seq<char>, Seq<char>)>;

/// The order of keys: character by character, and a text before every
/// longer text that starts with it.
pub open spec fn text_less(a: Seq<char>, b: Seq<char>) -> bool
    decreases a.len(),
{
    if b.len() == 0 {
        false
    } else if a.len() == 0 {
        true
    } else if a[0] != b[0] {
        a[0] < b[0]
    } else {
        text_less(a.drop_first(), b.drop_first())
    }
}

/// Keys rise strictly from front to back, so no key stands twice.
pub open spec fn ascending(s: Params) -> bool {
    forall|i: int, j: int|
        0 <= i < j < s.len() ==> text_less((#[trigger] s[i]).0, (#[trigger] s[j]).0)
}

/// Every key stands before `key`.
pub open spec fn all_below(s: Params, key: Seq<char>) -> bool {
    forall|i: int| 0 <= i < s.len() ==> text_less((#[trigger] s[i]).0, key)
}

/// Number of keys at the front that stand before `key`.
pub open spec fn rank_of(s: Params, key: Seq<char>) -> nat
    decreases s.len(),
{
    if s.len() > 0 && text_less(s[0].0, key) {
        1 + rank_of(s.drop_first(), key)
    } else {
        0
    }
}

/// The parameters after `key` has been given `value`: the pair takes the
/// place of the pair with the same key, or else its place in the order.
pub open spec fn inserted(s: Params, key: Seq<char>, value: Seq<char>) -> Params {
    let p = rank_of(s, key) as int;
    if p < s.len() && s[p].0 == key {
        s.update(p, (key, value))
    } else {
        s.insert(p, (key, value))
    }
}

/// The keys and values of a list of parameters as plain text.
pub open spec fn param_views(params: Seq<(String, String)>) -> Params {
    Seq::new(params.len(), |i: int| (params[i].0@, params[i].1@))
}

/// A text stands before another when they agree up to `k` and there the
/// first ends or holds the lesser character.
pub proof fn lemma_text_less_at(a: Seq<char>, b: Seq<char>, k: int)
    requires
        0 <= k <= a.len(),
        k < b.len(),
        forall|j: int| 0 <= j < k ==> a[j] == b[j],
        k == a.len() || a[k] < b[k],
    ensures
        text_less(a, b),
    decreases k,
{
    if k > 0 {
        let x = a.drop_first();
        let y = b.drop_first();
        assert(a[0] == b[0]);
        assert forall|j: int| 0 <= j < k - 1 implies x[j] == y[j] by {
            assert(x[j] == a[j + 1] && y[j] == b[j + 1]);
        }
        if k < a.len() {
            assert(x[k - 1] == a[k] && y[k - 1] == b[k]);
        }
        lemma_text_less_at(x, y, k - 1);
    }
}

/// The order of keys is transitive.
pub proof fn lemma_text_less_transitive(a: Seq<char>, b: Seq<char>, c: Seq<char>)
    requires
        text_less(a, b),
        text_less(b, c),
    ensures
        text_less(a, c),
    decreases a.len(),
{
    if a.len() > 0 && a[0] == b[0] && b[0] == c[0] {
        lemma_text_less_transitive(a.drop_first(), b.drop_first(), c.drop_first());
    }
}

/// No text stands before itself.
pub proof fn lemma_text_less_irreflexive(a: Seq<char>)
    ensures
        !text_less(a, a),
    decreases a.len(),
{
    if a.len() > 0 {
        lemma_text_less_irreflexive(a.drop_first());
    }
}

/// How two keys stand to each other.
#[derive(Clone, Copy, Debug, PartialEq, Eq, Structural)]
pub enum KeyOrder {
    Before,
    Same,
    After,
}

/// Tells how `a` stands to `b` in the order of keys.
pub fn compare_text(a: &str, b: &str) -> (order: KeyOrder)
    ensures
        match order {
            KeyOrder::Before => text_less(a@, b@),
            KeyOrder::Same => a@ == b@,
            KeyOrder::After => text_less(b@, a@),
        },
{
    let la: usize = a.unicode_len();
    let lb: usize = b.unicode_len();
    let mut i: usize = 0;
    while i < la && i < lb
        invariant
            i <= la,
            i <= lb,
            la == a@.len(),
            lb == b@.len(),
            forall|j: int| 0 <= j < i ==> a@[j] == b@[j],
        decreases la - i,
    {
        let ca: char = a.get_char(i);
        let cb: char = b.get_char(i);
        if ca < cb {
            proof {
                lemma_text_less_at(a@, b@, i as int);
            }
            return KeyOrder::Before;
        }
        if cb < ca {
            proof {
                lemma_text_less_at(b@, a@, i as int);
            }
            return KeyOrder::After;
        }
        i = i + 1;
    }
    if la < lb {
        proof {
            lemma_text_less_at(a@, b@, i as int);
        }
        KeyOrder::Before
    } else if lb < la {
        proof {
            lemma_text_less_at(b@, a@, i as int);
        }
        KeyOrder::After
    } else {
        assert(a@ =~= b@);
        KeyOrder::Same
    }
}

/// A key that stands behind every key is inserted at the back.
pub proof fn lemma_insert_behind(s: Params, key: Seq<char>, value: Seq<char>)
    requires
        all_below(s, key),
    ensures
        rank_of(s, key) == s.len(),
        inserted(s, key, value) == s.push((key, value)),
    decreases s.len(),
{
    if s.len() > 0 {
        let rest = s.drop_first();
        assert(text_less(s[0].0, key));
        assert forall|i: int| 0 <= i < rest.len() implies text_less((#[trigger] rest[i]).0, key) by {
            assert(rest[i] == s[i + 1]);
        }
        lemma_insert_behind(rest, key, value);
    }
    assert(s.insert(s.len() as int, (key, value)) =~= s.push((key, value)));
}

/// An insertion keeps the keys rising.
pub proof fn lemma_inserted_ascending(s: Params, key: Seq<char>, value: Seq<char>)
    requires
        ascending(s),
    ensures
        ascending(inserted(s, key, value)),
{
    lemma_rank_of(s, key);
    let p = rank_of(s, key) as int;
    let t = inserted(s, key, value);
    if p < s.len() && s[p].0 == key {
        assert forall|i: int, j: int| 0 <= i < j < t.len() implies text_less(
            (#[trigger] t[i]).0,
            (#[trigger] t[j]).0,
        ) by {
            assert(t[i].0 == s[i].0 && t[j].0 == s[j].0);
        }
    } else {
        assert forall|i: int, j: int| 0 <= i < j < t.len() implies text_less(
            (#[trigger] t[i]).0,
            (#[trigger] t[j]).0,
        ) by {
            if j < p {
                assert(t[i] == s[i] && t[j] == s[j]);
            } else if j == p {
                assert(t[i] == s[i]);
            } else if i == p {
                assert(t[j] == s[j - 1]);
                lemma_key_below_rest(s, key, p, j - 1);
            } else if i < p {
                assert(t[i] == s[i] && t[j] == s[j - 1]);
            } else {
                assert(t[i] == s[i - 1] && t[j] == s[j - 1]);
            }
        }
    }
}

/// What `rank_of` counts, said without recursion.
pub proof fn lemma_rank_of(s: Params, key: Seq<char>)
    ensures
        rank_of(s, key) <= s.len(),
        forall|i: int| 0 <= i < rank_of(s, key) ==> text_less((#[trigger] s[i]).0, key),
        rank_of(s, key) < s.len() ==> !text_less(s[rank_of(s, key) as int].0, key),
    decreases s.len(),
{
    if s.len() > 0 && text_less(s[0].0, key) {
        let rest = s.drop_first();
        lemma_rank_of(rest, key);
        assert forall|i: int| 0 <= i < rank_of(s, key) implies text_less((#[trigger] s[i]).0, key) by {
            if i > 0 {
                assert(s[i] == rest[i - 1]);
            }
        }
        if rank_of(s, key) < s.len() {
            assert(s[rank_of(s, key) as int] == rest[rank_of(rest, key) as int]);
        }
    }
}

/// A key that is not among rising keys stands before every key from its
/// rank on.
proof fn lemma_key_below_rest(s: Params, key: Seq<char>, p: int, j: int)
    requires
        ascending(s),
        p == rank_of(s, key),
        p <= j < s.len(),
        s[p].0 != key,
    ensures
        text_less(key, s[j].0),
{
    lemma_rank_of(s, key);
    lemma_text_trichotomy(s[p].0, key);
    if j > p {
        assert(text_less(s[p].0, s[j].0));
        lemma_text_less_transitive(key, s[p].0, s[j].0);
    }
}

/// Of two different texts one stands before the other.
pub proof fn lemma_text_trichotomy(a: Seq<char>, b: Seq<char>)
    ensures
        text_less(a, b) || a == b || text_less(b, a),
    decreases a.len(),
{
    if a.len() > 0 && b.len() > 0 && a[0] == b[0] {
        lemma_text_trichotomy(a.drop_first(), b.drop_first());
        if a.drop_first() == b.drop_first() {
            assert forall|i: int| 0 <= i < a.len() implies a[i] == b[i] by {
                if i > 0 {
                    assert(a[i] == a.drop_first()[i - 1] && b[i] == b.drop_first()[i - 1]);
                }
            }
            assert(a.len() == a.drop_first().len() + 1 && b.len() == b.drop_first().len() + 1);
            assert(a =~= b);
        }
    } else if a.len() == 0 && b.len() == 0 {
        assert(a =~= b);
    }
}

/// The parameters of a request, kept in the order of their keys with no
/// key twice, as a sorted map keeps them.
pub struct QueryParams {
    entries: Vec<(String, String)>,
}

impl View for QueryParams {
    type V = Params;

    closed spec fn view(&self) -> Params {
        param_views(self.entries@)
    }
}

impl QueryParams {
    /// The keys rise strictly.
    pub open spec fn wf(&self) -> bool {
        ascending(self@)
    }

    /// No parameters.
    pub fn new() -> (params: Self)
        ensures
            params.wf(),
            params@ == Seq::<(Seq<char>, Seq<char>)>::empty(),
    {
        let params = QueryParams { entries: Vec::new() };
        assert(params@ =~= Seq::<(Seq<char>, Seq<char>)>::empty());
        params
    }

    /// Number of parameters.
    pub fn len(&self) -> (n: usize)
        ensures
            n == self@.len(),
    {
        self.entries.len()
    }

    /// The key at `index`.
    pub fn key(&self, index: usize) -> (key: &str)
        requires
            index < self@.len(),
        ensures
            key@ == self@[index as int].0,
    {
        self.entries[index].0.as_str()
    }

    /// The value at `index`.
    pub fn value(&self, index: usize) -> (value: &str)
        requires
            index < self@.len(),
        ensures
            value@ == self@[index as int].1,
    {
        self.entries[index].1.as_str()
    }

    /// Gives `key` the value `value`: a pair with the same key is replaced,
    /// and a new key takes its place in the order.
    pub fn insert(&mut self, key: String, value: String)
        requires
            old(self).wf(),
        ensures
            final(self).wf(),
            final(self)@ == inserted(old(self)@, key@, value@),
    {
        let ghost before = self@;
        let n: usize = self.entries.len();
        let mut i: usize = 0;
        let mut found: bool = false;
        let mut scanning: bool = true;
        assert(before.skip(0) =~= before);
        while scanning && i < n
            invariant
                0 <= i <= n,
                n == self.entries.len(),
                self@ == before,
                rank_of(before, key@) == i + rank_of(before.skip(i as int), key@),
                scanning ==> !found,
                !scanning ==> i < n && rank_of(before.skip(i as int), key@) == 0 && found == (
                before[i as int].0 == key@),
            decreases n - i + (if scanning { 1int } else { 0int }),
        {
            let ghost rest = before.skip(i as int);
            proof {
                assert(rest[0] == before[i as int]);
                assert(rest.drop_first() =~= before.skip(i + 1));
                lemma_text_less_irreflexive(key@);
            }
            match compare_text(self.entries[i].0.as_str(), key.as_str()) {
                KeyOrder::Before => {
                    i = i + 1;
                },
                KeyOrder::Same => {
                    found = true;
                    scanning = false;
                },
                KeyOrder::After => {
                    proof {
                        if text_less(rest[0].0, key@) {
                            lemma_text_less_transitive(key@, rest[0].0, key@);
                        }
                    }
                    scanning = false;
                },
            }
        }
        proof {
            if i == n {
                assert(before.skip(n as int).len() == 0);
            }
            assert(rank_of(before, key@) == i);
            lemma_inserted_ascending(before, key@, value@);
        }
        if found {
            self.entries.set(i, (key, value));
            assert(self@ =~= before.update(i as int, (key@, value@)));
        } else {
            self.entries.insert(i, (key, value));
            assert(self@ =~= before.insert(i as int, (key@, value@)));
        }
    }
}

/// The keys of an order in their order.
pub proof fn lemma_order_keys()
    ensures
        text_less("icebergQty"@, "newClientOrderId"@),
        text_less("newClientOrderId"@, "newOrderRespType"@),
        text_less("newOrderRespType"@, "price"@),
        text_less("price"@, "quantity"@),
        text_less("quantity"@, "quoteOrderQty"@),
        text_less("quoteOrderQty"@, "recvWindow"@),
        text_less("recvWindow"@, "side"@),
        text_less("side"@, "stopPrice"@),
        text_less("stopPrice"@, "symbol"@),
        text_less("symbol"@, "timeInForce"@),
        text_less("timeInForce"@, "timestamp"@),
        text_less("timestamp"@, "type"@),
{
    reveal_strlit("icebergQty");
    reveal_strlit("newClientOrderId");
    reveal_strlit("newOrderRespType");
    reveal_strlit("price");
    reveal_strlit("quantity");
    reveal_strlit("quoteOrderQty");
    reveal_strlit("recvWindow");
    reveal_strlit("side");
    reveal_strlit("stopPrice");
    reveal_strlit("symbol");
    reveal_strlit("timeInForce");
    reveal_strlit("timestamp");
    reveal_strlit("type");
    assert(text_less("icebergQty"@, "newClientOrderId"@)) by {
        assert("icebergQty"@[0] < "newClientOrderId"@[0]);
        lemma_text_less_at("icebergQty"@, "newClientOrderId"@, 0);
    }
    assert(text_less("newClientOrderId"@, "newOrderRespType"@)) by {
        assert("newClientOrderId"@[0] == "newOrderRespType"@[0]);
        assert("newClientOrderId"@[1] == "newOrderRespType"@[1]);
        assert("newClientOrderId"@[2] == "newOrderRespType"@[2]);
        assert("newClientOrderId"@[3] < "newOrderRespType"@[3]);
        lemma_text_less_at("newClientOrderId"@, "newOrderRespType"@, 3);
    }
    assert(text_less("newOrderRespType"@, "price"@)) by {
        assert("newOrderRespType"@[0] < "price"@[0]);
        lemma_text_less_at("newOrderRespType"@, "price"@, 0);
    }
    assert(text_less("price"@, "quantity"@)) by {
        assert("price"@[0] < "quantity"@[0]);
        lemma_text_less_at("price"@, "quantity"@, 0);
    }
    assert(text_less("quantity"@, "quoteOrderQty"@)) by {
        assert("quantity"@[0] == "quoteOrderQty"@[0]);
        assert("quantity"@[1] == "quoteOrderQty"@[1]);
        assert("quantity"@[2] < "quoteOrderQty"@[2]);
        lemma_text_less_at("quantity"@, "quoteOrderQty"@, 2);
    }
    assert(text_less("quoteOrderQty"@, "recvWindow"@)) by {
        assert("quoteOrderQty"@[0] < "recvWindow"@[0]);
        lemma_text_less_at("quoteOrderQty"@, "recvWindow"@, 0);
    }
    assert(text_less("recvWindow"@, "side"@)) by {
        assert("recvWindow"@[0] < "side"@[0]);
        lemma_text_less_at("recvWindow"@, "side"@, 0);
    }
    assert(text_less("side"@, "stopPrice"@)) by {
        assert("side"@[0] == "stopPrice"@[0]);
        assert("side"@[1] < "stopPrice"@[1]);
        lemma_text_less_at("side"@, "stopPrice"@, 1);
    }
    assert(text_less("stopPrice"@, "symbol"@)) by {
        assert("stopPrice"@[0] == "symbol"@[0]);
        assert("stopPrice"@[1] < "symbol"@[1]);
        lemma_text_less_at("stopPrice"@, "symbol"@, 1);
    }
    assert(text_less("symbol"@, "timeInForce"@)) by {
        assert("symbol"@[0] < "timeInForce"@[0]);
        lemma_text_less_at("symbol"@, "timeInForce"@, 0);
    }
    assert(text_less("timeInForce"@, "timestamp"@)) by {
        assert("timeInForce"@[0] == "timestamp"@[0]);
        assert("timeInForce"@[1] == "timestamp"@[1]);
        assert("timeInForce"@[2] == "timestamp"@[2]);
        assert("timeInForce"@[3] == "timestamp"@[3]);
        assert("timeInForce"@[4] < "timestamp"@[4]);
        lemma_text_less_at("timeInForce"@, "timestamp"@, 4);
    }
    assert(text_less("timestamp"@, "type"@)) by {
        assert("timestamp"@[0] == "type"@[0]);
        assert("timestamp"@[1] < "type"@[1]);
        lemma_text_less_at("timestamp"@, "type"@, 1);
    }
}

/// The keys of a request for candles in their order.
pub proof fn lemma_kline_keys()
    ensures
        text_less("endTime"@, "interval"@),
        text_less("interval"@, "limit"@),
        text_less("limit"@, "startTime"@),
        text_less("startTime"@, "symbol"@),
{
    reveal_strlit("endTime");
    reveal_strlit("interval");
    reveal_strlit("limit");
    reveal_strlit("startTime");
    reveal_strlit("symbol");
    assert(text_less("endTime"@, "interval"@)) by {
        assert("endTime"@[0] < "interval"@[0]);
        lemma_text_less_at("endTime"@, "interval"@, 0);
    }
    assert(text_less("interval"@, "limit"@)) by {
        assert("interval"@[0] < "limit"@[0]);
        lemma_text_less_at("interval"@, "limit"@, 0);
    }
    assert(text_less("limit"@, "startTime"@)) by {
        assert("limit"@[0] < "startTime"@[0]);
        lemma_text_less_at("limit"@, "startTime"@, 0);
    }
    assert(text_less("startTime"@, "symbol"@)) by {
        assert("startTime"@[0] == "symbol"@[0]);
        assert("startTime"@[1] < "symbol"@[1]);
        lemma_text_less_at("startTime"@, "symbol"@, 1);
    }
}

/// The keys of a request for the account in their order.
pub proof fn lemma_account_keys()
    ensures
        text_less("recvWindow"@, "timestamp"@),
{
    reveal_strlit("recvWindow");
    reveal_strlit("timestamp");
    assert(text_less("recvWindow"@, "timestamp"@)) by {
        assert("recvWindow"@[0] < "timestamp"@[0]);
        lemma_text_less_at("recvWindow"@, "timestamp"@, 0);
    }
}

} // verus!
