//! The scancode queue between interrupt context and the polling loop, and
//! the key decoder that turns scancodes into keys.

use vstd::prelude::*;

verus! {

/// How many scancodes the queue holds; later ones are dropped.
pub const QUEUE_CAPACITY: usize = 8;

#[verifier::external_type_specification]
#[verifier::external_body]
#[verifier::reject_recursive_types(T)]
pub struct ExDeque<T, const N: usize>(heapless::Deque<T, N>);

/// What a scancode deque holds, front first.
pub uninterp spec fn deque_items(q: heapless::Deque<u8, 8>) -> Seq<u8>;

/// Relies on heapless::Deque::new: a new deque is empty.
#[verifier::external_body]
fn deque_new() -> (r: heapless::Deque<u8, 8>)
    ensures
        deque_items(r) == Seq::<u8>::empty(),
{
    heapless::Deque::new()
}

/// Relies on heapless::Deque::push_back: appends at the back when not full,
/// otherwise hands the item back and leaves the deque as it was.
#[verifier::external_body]
fn deque_push_back(q: &mut heapless::Deque<u8, 8>, item: u8) -> (r: Result<(), u8>)
    ensures
        deque_items(*old(q)).len() < 8 ==> r is Ok && deque_items(*final(q)) == deque_items(
            *old(q),
        ).push(item),
        deque_items(*old(q)).len() >= 8 ==> r is Err && deque_items(*final(q))
            == deque_items(*old(q)),
{
    q.push_back(item)
}

/// Relies on heapless::Deque::pop_front: removes and returns the front item,
/// or `None` on an empty deque.
#[verifier::external_body]
fn deque_pop_front(q: &mut heapless::Deque<u8, 8>) -> (r: Option<u8>)
    ensures
        deque_items(*old(q)).len() == 0 ==> r is None && deque_items(*final(q)) == deque_items(
            *old(q),
        ),
        deque_items(*old(q)).len() > 0 ==> r == Some(deque_items(*old(q))[0]) && deque_items(
            *final(q),
        ) == deque_items(*old(q)).drop_first(),
{
    q.pop_front()
}

/// A bounded FIFO of raw scancodes.
pub struct ScancodeQueue {
    items: heapless::Deque<u8, 8>,
}

impl View for ScancodeQueue {
    type V = Seq<u8>;

    closed spec fn view(&self) -> Seq<u8> {
        deque_items(self.items)
    }
}

/// The queue `q` after one push of `b`: appended if there is room, dropped
/// otherwise.
pub open spec fn push_one(q: Seq<u8>, b: u8) -> Seq<u8> {
    if q.len() < QUEUE_CAPACITY {
        q.push(b)
    } else {
        q
    }
}

/// The queue `q` after pushing each of `bytes` in turn.
pub open spec fn push_all(q: Seq<u8>, bytes: Seq<u8>) -> Seq<u8>
    decreases bytes.len(),
{
    if bytes.len() == 0 {
        q
    } else {
        push_one(push_all(q, bytes.drop_last()), bytes.last())
    }
}

/// The bytes that `n` pops return from the queue `q`, oldest first; a pop on
/// an empty queue returns nothing.
pub open spec fn pop_all(q: Seq<u8>, n: nat) -> Seq<u8>
    decreases n,
{
    if n == 0 || q.len() == 0 {
        Seq::empty()
    } else {
        seq![q[0]] + pop_all(q.drop_first(), (n - 1) as nat)
    }
}

impl ScancodeQueue {
    /// The queue never holds more than its capacity.
    pub closed spec fn wf(&self) -> bool {
        self@.len() <= QUEUE_CAPACITY
    }

    /// An empty queue.
    pub fn new() -> (r: Self)
        ensures
            r.wf(),
            r@ == Seq::<u8>::empty(),
    {
        ScancodeQueue { items: deque_new() }
    }

    /// Removes and returns the oldest scancode, if any.
    pub fn pop(&mut self) -> (r: Option<u8>)
        requires
            old(self).wf(),
        ensures
            final(self).wf(),
            old(self)@.len() == 0 ==> r is None && final(self)@ == old(self)@,
            old(self)@.len() > 0 ==> r == Some(old(self)@[0]) && final(self)@ == old(
                self,
            )@.drop_first(),
    {
        deque_pop_front(&mut self.items)
    }
}

/// Enqueues a scancode; when the queue is full the scancode is dropped.
pub fn add_scancode(queue: &mut ScancodeQueue, scancode: u8)
    requires
        old(queue).wf(),
    ensures
        final(queue).wf(),
        final(queue)@ == push_one(old(queue)@, scancode),
{
    let _ = deque_push_back(&mut queue.items, scancode);
}

/// Pushes that fit keep every byte: pushing `bytes` onto `q` with room for
/// all of them appends them in order.
pub proof fn lemma_push_all_fits(q: Seq<u8>, bytes: Seq<u8>)
    requires
        q.len() + bytes.len() <= QUEUE_CAPACITY,
    ensures
        push_all(q, bytes) == q + bytes,
    decreases bytes.len(),
{
    if bytes.len() > 0 {
        lemma_push_all_fits(q, bytes.drop_last());
        assert(q + bytes.drop_last() + seq![bytes.last()] =~= q + bytes);
        assert((q + bytes.drop_last()).push(bytes.last()) =~= q + bytes);
    } else {
        assert(q + bytes =~= q);
    }
}

/// Pushes beyond the capacity are lost: from an empty queue, pushing
/// `bytes` keeps exactly the first `QUEUE_CAPACITY` of them.
pub proof fn lemma_push_all_overflow(bytes: Seq<u8>)
    requires
        bytes.len() >= QUEUE_CAPACITY,
    ensures
        push_all(Seq::empty(), bytes) == bytes.take(QUEUE_CAPACITY as int),
    decreases bytes.len(),
{
    if bytes.len() == QUEUE_CAPACITY {
        lemma_push_all_fits(Seq::empty(), bytes);
        assert(Seq::<u8>::empty() + bytes =~= bytes.take(QUEUE_CAPACITY as int));
    } else {
        lemma_push_all_overflow(bytes.drop_last());
        assert(bytes.drop_last().take(QUEUE_CAPACITY as int) =~= bytes.take(
            QUEUE_CAPACITY as int,
        ));
    }
}

/// Popping a queue as many times as it has bytes returns them all, oldest
/// first.
pub proof fn lemma_pop_all(q: Seq<u8>)
    ensures
        pop_all(q, q.len()) == q,
    decreases q.len(),
{
    if q.len() > 0 {
        lemma_pop_all(q.drop_first());
        assert(seq![q[0]] + q.drop_first() =~= q);
    } else {
        assert(q =~= Seq::<u8>::empty());
    }
}

/// FIFO order: pushing at most `QUEUE_CAPACITY` bytes onto an empty queue and
/// popping as many times returns them in the order they were pushed.
pub proof fn lemma_fifo_order(bytes: Seq<u8>)
    requires
        bytes.len() <= QUEUE_CAPACITY,
    ensures
        pop_all(push_all(Seq::empty(), bytes), bytes.len()) == bytes,
{
    lemma_push_all_fits(Seq::empty(), bytes);
    assert(Seq::<u8>::empty() + bytes =~= bytes);
    lemma_pop_all(bytes);
}

/// Overflow policy: pushing `QUEUE_CAPACITY + k` bytes (`k > 0`) onto an
/// empty queue and popping `QUEUE_CAPACITY` times returns exactly the first
/// `QUEUE_CAPACITY` bytes in order; the queue is then empty, so the last `k`
/// bytes are gone.
pub proof fn lemma_overflow_policy(bytes: Seq<u8>, k: nat)
    requires
        k > 0,
        bytes.len() == QUEUE_CAPACITY + k,
    ensures
        pop_all(push_all(Seq::empty(), bytes), QUEUE_CAPACITY as nat) == bytes.take(
            QUEUE_CAPACITY as int,
        ),
        push_all(Seq::empty(), bytes).len() == QUEUE_CAPACITY,
{
    lemma_push_all_overflow(bytes);
    lemma_pop_all(bytes.take(QUEUE_CAPACITY as int));
}

#[verifier::external_type_specification]
#[verifier::external_body]
pub struct ExKeyEvent(pc_keyboard::KeyEvent);

#[verifier::external_type_specification]
#[verifier::external_body]
pub struct ExKeyboardError(pc_keyboard::Error);

#[verifier::external_type_specification]
#[verifier::external_body]
pub struct ExDecodedKey(pc_keyboard::DecodedKey);

/// Stateful decoder from scancodes to keys: scancode set 1, US 104-key
/// layout, Ctrl passed through as a plain key. The keyboard's automaton is
/// opaque here; only the wrappers below touch it.
#[verifier::external_body]
pub struct KeyDecoder {
    keyboard: pc_keyboard::Keyboard<pc_keyboard::layouts::Us104Key, pc_keyboard::ScancodeSet1>,
}

/// Relies on pc_keyboard::Keyboard::new with ScancodeSet1::new: a keyboard in
/// its initial state.
#[verifier::external_body]
fn keyboard_new() -> (r: KeyDecoder) {
    KeyDecoder {
        keyboard: pc_keyboard::Keyboard::new(
            pc_keyboard::ScancodeSet1::new(),
            pc_keyboard::layouts::Us104Key,
            pc_keyboard::HandleControl::Ignore,
        ),
    }
}

/// What pc_keyboard's `add_byte` returns when the keyboard `d` takes `byte`.
pub uninterp spec fn scan_of(d: KeyDecoder, byte: u8) -> Result<
    Option<pc_keyboard::KeyEvent>,
    pc_keyboard::Error,
>;

/// The keyboard `d` after `add_byte` took `byte`.
pub uninterp spec fn after_scan(d: KeyDecoder, byte: u8) -> KeyDecoder;

/// What pc_keyboard's `process_keyevent` returns when the keyboard `d` takes
/// the event `ev`.
pub uninterp spec fn key_of(d: KeyDecoder, ev: pc_keyboard::KeyEvent) -> Option<
    pc_keyboard::DecodedKey,
>;

/// The keyboard `d` after `process_keyevent` took the event `ev`.
pub uninterp spec fn after_event(d: KeyDecoder, ev: pc_keyboard::KeyEvent) -> KeyDecoder;

/// Relies on pc_keyboard::Keyboard::add_byte: advances the scancode automaton
/// by one byte, possibly completing a key event. The result and the new state
/// depend on the keyboard and the byte alone.
#[verifier::external_body]
fn keyboard_add_byte(d: &mut KeyDecoder, byte: u8) -> (r: Result<
    Option<pc_keyboard::KeyEvent>,
    pc_keyboard::Error,
>)
    ensures
        r == scan_of(*old(d), byte),
        *final(d) == after_scan(*old(d), byte),
{
    d.keyboard.add_byte(byte)
}

/// Relies on pc_keyboard::Keyboard::process_keyevent: updates the modifier
/// state and maps the event to a key, if it yields one. The result and the
/// new state depend on the keyboard and the event alone.
#[verifier::external_body]
fn keyboard_process_keyevent(d: &mut KeyDecoder, ev: pc_keyboard::KeyEvent) -> (r: Option<
    pc_keyboard::DecodedKey,
>)
    ensures
        r == key_of(*old(d), ev),
        *final(d) == after_event(*old(d), ev),
{
    d.keyboard.process_keyevent(ev)
}

/// The key that the decoder `d` yields for the automaton's verdict `scan`:
/// a completed event is mapped to a key; a prefix or an error yields none.
pub open spec fn key_from_scan(
    d: KeyDecoder,
    scan: Result<Option<pc_keyboard::KeyEvent>, pc_keyboard::Error>,
) -> Option<pc_keyboard::DecodedKey> {
    match scan {
        Ok(Some(ev)) => key_of(d, ev),
        _ => None,
    }
}

/// The decoder `d` after it took the automaton's verdict `scan`.
pub open spec fn state_from_scan(
    d: KeyDecoder,
    scan: Result<Option<pc_keyboard::KeyEvent>, pc_keyboard::Error>,
) -> KeyDecoder {
    match scan {
        Ok(Some(ev)) => after_event(d, ev),
        _ => d,
    }
}

/// The key that the decoder `d` yields when fed `scancode`.
pub open spec fn key_after(d: KeyDecoder, scancode: u8) -> Option<pc_keyboard::DecodedKey> {
    key_from_scan(after_scan(d, scancode), scan_of(d, scancode))
}

/// The decoder `d` after it was fed `scancode`.
pub open spec fn decoder_after(d: KeyDecoder, scancode: u8) -> KeyDecoder {
    state_from_scan(after_scan(d, scancode), scan_of(d, scancode))
}

impl KeyDecoder {
    /// A decoder with no partial sequence and no modifier held.
    pub fn new() -> (r: Self) {
        keyboard_new()
    }

    /// Finishes one scancode from the automaton's verdict `scan`: a completed
    /// event is mapped to a key; a prefix, or an unrecognized sequence that
    /// the automaton reported as an error, yields nothing and is absorbed.
    pub fn handle_scan(
        &mut self,
        scan: Result<Option<pc_keyboard::KeyEvent>, pc_keyboard::Error>,
    ) -> (r: Option<pc_keyboard::DecodedKey>)
        ensures
            r == key_from_scan(*old(self), scan),
            *final(self) == state_from_scan(*old(self), scan),
    {
        match scan {
            Ok(Some(event)) => keyboard_process_keyevent(self, event),
            _ => None,
        }
    }

    /// Feeds one scancode. A byte that completes a sequence may yield a key;
    /// a prefix, a key release without a character, or an unrecognized
    /// sequence yields nothing and is absorbed.
    pub fn feed(&mut self, scancode: u8) -> (r: Option<pc_keyboard::DecodedKey>)
        ensures
            r == key_after(*old(self), scancode),
            *final(self) == decoder_after(*old(self), scancode),
    {
        let scan = keyboard_add_byte(self, scancode);
        self.handle_scan(scan)
    }
}

/// Takes the oldest scancode from the queue, if any, and feeds it to the
/// decoder. An empty queue yields no key, and queue and decoder are left as
/// they were.
pub fn poll_key(queue: &mut ScancodeQueue, decoder: &mut KeyDecoder) -> (r: Option<
    pc_keyboard::DecodedKey,
>)
    requires
        old(queue).wf(),
    ensures
        final(queue).wf(),
        old(queue)@.len() == 0 ==> r is None && final(queue)@ == old(queue)@ && *final(decoder)
            == *old(decoder),
        old(queue)@.len() > 0 ==> final(queue)@ == old(queue)@.drop_first(),
        old(queue)@.len() > 0 ==> r == key_after(*old(decoder), old(queue)@[0]),
        old(queue)@.len() > 0 ==> *final(decoder) == decoder_after(*old(decoder), old(queue)@[0]),
{
    match queue.pop() {
        Some(scancode) => decoder.feed(scancode),
        None => None,
    }
}

/// The keys that the decoder `d` yields when fed `bytes` one at a time,
/// first byte first.
pub open spec fn keys_of(d: KeyDecoder, bytes: Seq<u8>) -> Seq<Option<pc_keyboard::DecodedKey>>
    decreases bytes.len(),
{
    if bytes.len() == 0 {
        Seq::empty()
    } else {
        seq![key_after(d, bytes[0])] + keys_of(decoder_after(d, bytes[0]), bytes.drop_first())
    }
}

/// What `n` successive `poll_key` calls return, starting from the queue `q`
/// and the decoder `d`.
pub open spec fn poll_results(q: Seq<u8>, d: KeyDecoder, n: nat) -> Seq<
    Option<pc_keyboard::DecodedKey>,
>
    decreases n,
{
    if n == 0 {
        Seq::empty()
    } else if q.len() == 0 {
        seq![None] + poll_results(q, d, (n - 1) as nat)
    } else {
        seq![key_after(d, q[0])] + poll_results(q.drop_first(), decoder_after(d, q[0]), (n - 1) as nat)
    }
}

proof fn lemma_poll_results_drain(q: Seq<u8>, d: KeyDecoder)
    ensures
        poll_results(q, d, q.len()) == keys_of(d, q),
        poll_results(q, d, q.len() + 1) == keys_of(d, q).push(None),
    decreases q.len(),
{
    if q.len() == 0 {
        assert(poll_results(q, d, 0) =~= Seq::<Option<pc_keyboard::DecodedKey>>::empty());
        assert(poll_results(q, d, 1) =~= seq![None]);
        assert(keys_of(d, q).push(None) =~= seq![None]);
    } else {
        lemma_poll_results_drain(q.drop_first(), decoder_after(d, q[0]));
        let tail = keys_of(decoder_after(d, q[0]), q.drop_first());
        assert(seq![key_after(d, q[0])] + tail.push(None) =~= (seq![key_after(d, q[0])]
            + tail).push(None));
    }
}

/// FIFO order through the decoder: after pushing at most `QUEUE_CAPACITY`
/// scancodes onto an empty queue, as many `poll_key` calls feed the decoder
/// exactly those scancodes in the order they were pushed.
pub proof fn lemma_poll_fifo(bytes: Seq<u8>, d: KeyDecoder)
    requires
        bytes.len() <= QUEUE_CAPACITY,
    ensures
        poll_results(push_all(Seq::empty(), bytes), d, bytes.len()) == keys_of(d, bytes),
{
    lemma_push_all_fits(Seq::empty(), bytes);
    assert(Seq::<u8>::empty() + bytes =~= bytes);
    lemma_poll_results_drain(bytes, d);
}

/// Overflow policy through the decoder: after pushing `QUEUE_CAPACITY + k`
/// scancodes (`k > 0`) onto an empty queue, `QUEUE_CAPACITY` `poll_key` calls
/// feed the decoder exactly the first `QUEUE_CAPACITY` of them in order, and
/// one more call finds the queue empty: the last `k` never reach it.
pub proof fn lemma_poll_overflow(bytes: Seq<u8>, k: nat, d: KeyDecoder)
    requires
        k > 0,
        bytes.len() == QUEUE_CAPACITY + k,
    ensures
        poll_results(push_all(Seq::empty(), bytes), d, QUEUE_CAPACITY as nat) == keys_of(
            d,
            bytes.take(QUEUE_CAPACITY as int),
        ),
        poll_results(push_all(Seq::empty(), bytes), d, (QUEUE_CAPACITY + 1) as nat) == keys_of(
            d,
            bytes.take(QUEUE_CAPACITY as int),
        ).push(None),
{
    lemma_push_all_overflow(bytes);
    lemma_poll_results_drain(bytes.take(QUEUE_CAPACITY as int), d);
}

} // verus!
