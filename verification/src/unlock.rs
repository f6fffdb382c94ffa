//! The PIN prompt in front of the key store.
//!
//! The prompt keeps what was typed, cut to the longest PIN allowed, and
//! decides when an attempt to unlock is worth making. Unlocking itself is the
//! key store's business: the caller makes the attempt and reports a failure
//! back.

use vstd::prelude::*;

verus! {

/// Shortest PIN that is tried against the key store, in bytes.
pub const MIN_PIN_LEN: usize = 4;

/// Longest PIN that can be entered, in bytes.
pub const MAX_PIN_LEN: usize = 6;

/// How long the hint about the PIN's length stays up, in milliseconds.
pub const TIP_MILLIS: u64 = 4_000;

/// What the prompt tells the user went wrong.
#[derive(Clone, Copy, Debug, PartialEq, Eq, Structural)]
pub enum PinError {
    /// A new PIN was confirmed before it had `MIN_PIN_LEN` bytes.
    TooShort,
    /// The key store did not accept the PIN.
    Invalid,
}

/// What follows from a change of the input field.
#[derive(Clone, Copy, Debug, PartialEq, Eq, Structural)]
pub struct Typed {
    /// Whether the hint was put up and has to be taken down after
    /// `TIP_MILLIS`.
    pub start_tip_timer: bool,
    /// Whether to try the whole typed value against the key store. A failure
    /// of this attempt is not reported to the prompt.
    pub try_unlock: bool,
}

/// The prompt as the contracts see it.
pub struct PinPromptState {
    /// The PIN entered so far.
    pub pin: Seq<u8>,
    /// The error on display, if any.
    pub error: Option<PinError>,
    /// Whether the hint about the PIN's length is up.
    pub show_tip: bool,
}

/// The part of a typed value that the prompt keeps: all of it, or its first
/// `MAX_PIN_LEN` bytes if it is longer.
pub open spec fn kept(value: Seq<u8>) -> Seq<u8> {
    if value.len() <= MAX_PIN_LEN {
        value
    } else {
        value.take(MAX_PIN_LEN as int)
    }
}

/// What the prompt keeps is the beginning of what was typed and never
/// longer than a PIN may be.
pub proof fn lemma_kept_is_a_bounded_prefix(value: Seq<u8>)
    ensures
        kept(value).len() <= MAX_PIN_LEN,
        kept(value).is_prefix_of(value),
        value.len() <= MAX_PIN_LEN ==> kept(value) == value,
{
}

/// The prompt after the input field changed to `value`, and what follows
/// from the change. Typing clears the error. A value that is too long is cut
/// and puts the hint up. A value of at least `MIN_PIN_LEN` bytes is tried at
/// once if a key store exists, to save the user the confirmation.
pub open spec fn typed_model(s: PinPromptState, value: Seq<u8>, keystore_exists: bool) -> (
    PinPromptState,
    Typed,
) {
    (
        PinPromptState {
            pin: kept(value),
            error: None,
            show_tip: s.show_tip || value.len() > MAX_PIN_LEN,
        },
        Typed {
            start_tip_timer: value.len() > MAX_PIN_LEN,
            try_unlock: value.len() >= MIN_PIN_LEN && keystore_exists,
        },
    )
}

/// Whether a confirmed PIN is tried against the key store: always, except a
/// PIN under `MIN_PIN_LEN` bytes while no key store exists yet, which is a
/// new PIN that is too short.
pub open spec fn worth_trying(s: PinPromptState, keystore_exists: bool) -> bool {
    s.pin.len() >= MIN_PIN_LEN || keystore_exists
}

/// The PIN prompt.
#[derive(Debug)]
pub struct PinPrompt {
    pin: Vec<u8>,
    error: Option<PinError>,
    show_tip: bool,
}

impl View for PinPrompt {
    type V = PinPromptState;

    closed spec fn view(&self) -> PinPromptState {
        PinPromptState { pin: self.pin@, error: self.error, show_tip: self.show_tip }
    }
}

impl PinPrompt {
    #[verifier::type_invariant]
    spec fn bounded(self) -> bool {
        self.pin.len() <= MAX_PIN_LEN
    }

    /// An empty prompt: nothing entered, no error, no hint.
    pub fn new() -> (prompt: PinPrompt)
        ensures
            prompt@ == (PinPromptState { pin: Seq::empty(), error: None, show_tip: false }),
    {
        PinPrompt { pin: Vec::new(), error: None, show_tip: false }
    }

    /// The PIN entered so far. It never has more than `MAX_PIN_LEN` bytes.
    pub fn pin(&self) -> (pin: &Vec<u8>)
        ensures
            pin@ == self@.pin,
            pin@.len() <= MAX_PIN_LEN,
    {
        proof {
            use_type_invariant(self);
        }
        &self.pin
    }

    /// The error on display, if any.
    pub fn error(&self) -> (error: Option<PinError>)
        ensures
            error == self@.error,
    {
        self.error
    }

    /// Whether the hint about the PIN's length is up.
    pub fn shows_tip(&self) -> (up: bool)
        ensures
            up == self@.show_tip,
    {
        self.show_tip
    }

    /// The input field changed to `value`.
    pub fn typed(&mut self, value: &Vec<u8>, keystore_exists: bool) -> (out: Typed)
        ensures
            final(self)@ == typed_model(old(self)@, value@, keystore_exists).0,
            out == typed_model(old(self)@, value@, keystore_exists).1,
    {
        let too_long = value.len() > MAX_PIN_LEN;
        let mut pin: Vec<u8> = Vec::new();
        let mut i: usize = 0;
        while i < value.len() && i < MAX_PIN_LEN
            invariant
                i <= value.len(),
                i <= MAX_PIN_LEN,
                pin@ == value@.take(i as int),
            decreases value.len() - i,
        {
            pin.push(value[i]);
            i = i + 1;
        }
        assert(value@.take(value.len() as int) == value@);
        self.pin = pin;
        self.error = None;
        if too_long {
            self.show_tip = true;
        }
        Typed {
            start_tip_timer: too_long,
            try_unlock: value.len() >= MIN_PIN_LEN && keystore_exists,
        }
    }

    /// The time of the hint is over: the hint is taken down.
    pub fn tip_elapsed(&mut self)
        ensures
            final(self)@ == (PinPromptState { show_tip: false, ..old(self)@ }),
    {
        proof {
            use_type_invariant(&*self);
        }
        self.show_tip = false;
    }

    /// The PIN was confirmed with the enter key. Returns whether to try it
    /// against the key store; where it is not worth trying, the prompt shows
    /// that it is too short.
    pub fn confirmed(&mut self, keystore_exists: bool) -> (try_unlock: bool)
        ensures
            try_unlock == worth_trying(old(self)@, keystore_exists),
            try_unlock ==> final(self)@ == old(self)@,
            !try_unlock ==> final(self)@ == (PinPromptState {
                error: Some(PinError::TooShort),
                ..old(self)@
            }),
    {
        if self.pin.len() < MIN_PIN_LEN && !keystore_exists {
            self.error = Some(PinError::TooShort);
            false
        } else {
            true
        }
    }

    /// The key store did not accept the PIN that was confirmed.
    pub fn rejected(&mut self)
        ensures
            final(self)@ == (PinPromptState { error: Some(PinError::Invalid), ..old(self)@ }),
    {
        proof {
            use_type_invariant(&*self);
        }
        self.error = Some(PinError::Invalid);
    }
}

} // verus!
