//! Typed views of the SMS-rental provider's responses, and the verified
//! functions that turn them into the values the rest of the flow uses.
use vstd::prelude::*;

verus! {

/// Failure of one of the provider operations.
#[derive(Clone, Copy, Debug, PartialEq, Eq, Structural)]
pub enum RunError {
    /// The provider reported that the API key is unknown.
    InvalidKey,
    /// HTTP failure, non-success status, or a payload that does not decode.
    Transport,
    /// Availability showed no numbers in stock and the stock guard is on.
    OutOfStock,
}

/// The phone number as the rest of the flow shows it: the provider's digits
/// behind a leading `+`.
pub open spec fn normalized_phone(digits: Seq<char>) -> Seq<char> {
    seq!['+'] + digits
}

/// Prefixes the provider's bare digits with `+`.
pub fn normalize_phone(digits: &String) -> (r: String)
    ensures
        r@ == normalized_phone(digits@),
{
    let mut r = String::from_str("+");
    proof {
        reveal_strlit("+");
    }
    r.append(digits.as_str());
    r
}

/// The error text with which the provider rejects an unknown API key.
pub open spec fn invalid_key_marker() -> Seq<char> {
    seq!['a', 'p', 'i', 'K', 'e', 'y', 'N', 'o', 't', 'F', 'o', 'u', 'n', 'd']
}

/// Whether the error field of a balance response marks the key as invalid.
pub open spec fn marks_invalid_key(error: Option<String>) -> bool {
    match error {
        Some(e) => e@ == invalid_key_marker(),
        None => false,
    }
}

/// Reads the error field of a balance response: `Err(InvalidKey)` exactly
/// when it holds the provider's unknown-key marker. Any other error text is
/// not acted upon.
pub fn check_balance_error(error: &Option<String>) -> (r: Result<(), RunError>)
    ensures
        r is Err <==> marks_invalid_key(*error),
        r is Err ==> r == Err::<(), RunError>(RunError::InvalidKey),
{
    match error {
        Some(e) => {
            let marker = String::from_str("apiKeyNotFound");
            proof {
                reveal_strlit("apiKeyNotFound");
                assert(marker@ == invalid_key_marker());
            }
            if *e == marker {
                Err(RunError::InvalidKey)
            } else {
                Ok(())
            }
        },
        None => Ok(()),
    }
}

/// Name of the service-code key under which the availability response gives
/// the number of phones in stock.
pub open spec fn stock_key() -> Seq<char> {
    seq!['d', 'c']
}

/// Name of the pseudo-key under which the availability response gives the
/// unit price.
pub open spec fn price_key() -> Seq<char> {
    seq!['p', 'r', 'i', 'c', 'e']
}

/// The value of the first entry whose key is `key`, if any.
pub open spec fn lookup(entries: Seq<(String, i32)>, key: Seq<char>) -> Option<i32>
    decreases entries.len(),
{
    if entries.len() == 0 {
        None
    } else if entries[0].0@ == key {
        Some(entries[0].1)
    } else {
        lookup(entries.drop_first(), key)
    }
}

/// The (stock, price) pair that an availability response denotes, when both
/// keys are present.
pub open spec fn availability_of(entries: Seq<(String, i32)>) -> Option<(i32, i32)> {
    match (lookup(entries, stock_key()), lookup(entries, price_key())) {
        (Some(stock), Some(price)) => Some((stock, price)),
        _ => None,
    }
}

/// No key occurs twice, as in a decoded JSON object.
pub open spec fn keys_unique(entries: Seq<(String, i32)>) -> bool {
    forall|i: int, j: int|
        0 <= i < j < entries.len() ==> #[trigger] entries[i].0@ != #[trigger] entries[j].0@
}

/// `entries` holds the pair (`key`, `value`) at some position.
pub open spec fn holds_entry(entries: Seq<(String, i32)>, key: Seq<char>, value: i32) -> bool {
    exists|i: int| 0 <= i < entries.len() && entries[i].0@ == key && #[trigger] entries[i].1 == value
}

/// Both lists hold the same (key, value) pairs, in whatever order.
pub open spec fn same_entries(a: Seq<(String, i32)>, b: Seq<(String, i32)>) -> bool {
    forall|k: Seq<char>, v: i32| holds_entry(a, k, v) <==> holds_entry(b, k, v)
}

/// With unique keys, a lookup finds a value exactly when the pair is held.
pub proof fn lemma_lookup_holds(entries: Seq<(String, i32)>, key: Seq<char>, value: i32)
    requires
        keys_unique(entries),
    ensures
        lookup(entries, key) == Some(value) <==> holds_entry(entries, key, value),
    decreases entries.len(),
{
    if entries.len() > 0 {
        let rest = entries.drop_first();
        assert(keys_unique(rest)) by {
            assert forall|i: int, j: int| 0 <= i < j < rest.len() implies #[trigger] rest[i].0@
                != #[trigger] rest[j].0@ by {
                assert(entries[i + 1].0@ != entries[j + 1].0@);
            }
        }
        lemma_lookup_holds(rest, key, value);
        if holds_entry(entries, key, value) {
            let i = choose|i: int|
                0 <= i < entries.len() && entries[i].0@ == key && #[trigger] entries[i].1 == value;
            if i > 0 {
                assert(rest[i - 1] == entries[i]);
                assert(entries[0].0@ != entries[i].0@);
            }
        }
        if holds_entry(rest, key, value) {
            let i = choose|i: int|
                0 <= i < rest.len() && rest[i].0@ == key && #[trigger] rest[i].1 == value;
            assert(entries[i + 1] == rest[i]);
        }
        if entries[0].0@ == key && entries[0].1 == value {
            assert(holds_entry(entries, key, value)) by {
                assert(entries[0].1 == value);
            }
        }
    }
}

/// Stock and price depend only on which pairs the provider returned, not on
/// the order in which the decoded mapping lists them: two reads of an
/// unchanged provider state give the same result.
pub proof fn lemma_availability_order_independent(a: Seq<(String, i32)>, b: Seq<(String, i32)>)
    requires
        keys_unique(a),
        keys_unique(b),
        same_entries(a, b),
    ensures
        availability_of(a) == availability_of(b),
{
    assert forall|k: Seq<char>| lookup(a, k) == lookup(b, k) by {
        match lookup(a, k) {
            Some(v) => {
                lemma_lookup_holds(a, k, v);
                lemma_lookup_holds(b, k, v);
            },
            None => {
                match lookup(b, k) {
                    Some(w) => {
                        lemma_lookup_holds(a, k, w);
                        lemma_lookup_holds(b, k, w);
                    },
                    None => {},
                }
            },
        }
    }
    assert(lookup(a, stock_key()) == lookup(b, stock_key()));
    assert(lookup(a, price_key()) == lookup(b, price_key()));
}

/// Finds the value under `key` among the decoded entries of a response.
pub fn find_entry(entries: &Vec<(String, i32)>, key: &String) -> (r: Option<i32>)
    ensures
        r == lookup(entries@, key@),
{
    let mut i: usize = 0;
    assert(entries@.subrange(0, entries@.len() as int) =~= entries@);
    while i < entries.len()
        invariant
            i <= entries@.len(),
            lookup(entries@, key@) == lookup(entries@.subrange(i as int, entries@.len() as int), key@),
        decreases entries@.len() - i,
    {
        let ghost rest = entries@.subrange(i as int, entries@.len() as int);
        assert(rest.drop_first() =~= entries@.subrange(i + 1, entries@.len() as int));
        if entries[i].0 == *key {
            return Some(entries[i].1);
        }
        i = i + 1;
    }
    None
}

/// Reads stock and price out of the decoded availability mapping; fails with
/// `Transport` when either key is absent.
pub fn availability_from(entries: &Vec<(String, i32)>) -> (r: Result<(i32, i32), RunError>)
    ensures
        match availability_of(entries@) {
            Some(pair) => r == Ok::<(i32, i32), RunError>(pair),
            None => r == Err::<(i32, i32), RunError>(RunError::Transport),
        },
{
    let dc = String::from_str("dc");
    let price = String::from_str("price");
    proof {
        reveal_strlit("dc");
        reveal_strlit("price");
        assert(dc@ == stock_key());
        assert(price@ == price_key());
    }
    match (find_entry(entries, &dc), find_entry(entries, &price)) {
        (Some(s), Some(p)) => Ok((s, p)),
        _ => Err(RunError::Transport),
    }
}

/// The order response: the rented phone number as bare digits and the
/// provider's handle for it.
pub struct GetNumberResponse {
    pub tel: String,
    pub id_num: String,
}

/// One inbound text message as the provider lists it.
pub struct Message {
    pub tzid: String,
    pub tel: String,
    pub text: String,
}

/// The number rented for this run: the phone number as shown to the user and
/// the handle that every later poll and the release refer to.
#[derive(Debug, PartialEq, Eq)]
pub struct RentedNumber {
    pub phone: String,
    pub handle: String,
}

impl View for RentedNumber {
    type V = (Seq<char>, Seq<char>);

    open spec fn view(&self) -> (Seq<char>, Seq<char>) {
        (self.phone@, self.handle@)
    }
}

/// Turns an order response into the rented number, normalizing the phone.
pub fn rented_from(response: &GetNumberResponse) -> (r: RentedNumber)
    ensures
        r@ == (normalized_phone(response.tel@), response.id_num@),
{
    RentedNumber { phone: normalize_phone(&response.tel), handle: response.id_num.clone() }
}

/// The texts of a poll response, in response order.
pub open spec fn texts_of(messages: Seq<Message>) -> Seq<Seq<char>> {
    messages.map_values(|m: Message| m.text@)
}

/// The view of a list of strings as a sequence of character sequences.
pub open spec fn strings_view(v: Seq<String>) -> Seq<Seq<char>> {
    v.map_values(|s: String| s@)
}

/// Collects the text field of each message, keeping the provider's order.
pub fn message_texts(messages: &Vec<Message>) -> (r: Vec<String>)
    ensures
        strings_view(r@) == texts_of(messages@),
{
    let mut r: Vec<String> = Vec::new();
    let mut i: usize = 0;
    while i < messages.len()
        invariant
            i <= messages@.len(),
            r@.len() == i,
            forall|j: int| 0 <= j < i ==> #[trigger] r@[j]@ == messages@[j].text@,
        decreases messages@.len() - i,
    {
        r.push(messages[i].text.clone());
        i = i + 1;
    }
    assert(strings_view(r@) =~= texts_of(messages@));
    r
}

} // verus!
