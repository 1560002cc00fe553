//! Checks on messages before they are acted on or sent.

use vstd::prelude::*;
use vstd::string::StringSliceAdditionalSpecFns;
use vstd::utf8::encode_utf8;
use crate::text::{append_decimal, append_str, decimal};

verus! {

/// The outcome of a check: whether the message may pass, the errors that
/// stop it, and the warnings that do not.
#[derive(Debug)]
pub struct ValidationResult {
    pub valid: bool,
    pub errors: Vec<String>,
    pub warnings: Vec<String>,
}

/// What a `ValidationResult` says.
pub struct ValidationResultView {
    pub valid: bool,
    pub errors: Seq<Seq<char>>,
    pub warnings: Seq<Seq<char>>,
}

/// The texts of a list, in order.
pub open spec fn texts(list: Seq<String>) -> Seq<Seq<char>> {
    list.map_values(|s: String| s@)
}

impl View for ValidationResult {
    type V = ValidationResultView;

    open spec fn view(&self) -> ValidationResultView {
        ValidationResultView {
            valid: self.valid,
            errors: texts(self.errors@),
            warnings: texts(self.warnings@),
        }
    }
}

impl Clone for ValidationResult {
    fn clone(&self) -> (r: ValidationResult)
        ensures
            r@ == self@,
    {
        let errors = self.errors.clone();
        let warnings = self.warnings.clone();
        assert(texts(errors@) =~= texts(self.errors@));
        assert(texts(warnings@) =~= texts(self.warnings@));
        ValidationResult { valid: self.valid, errors, warnings }
    }
}

impl ValidationResult {
    /// A result without errors or warnings.
    pub fn success() -> (r: ValidationResult)
        ensures
            r@ == (ValidationResultView {
                valid: true,
                errors: Seq::empty(),
                warnings: Seq::empty(),
            }),
    {
        let r = ValidationResult { valid: true, errors: Vec::new(), warnings: Vec::new() };
        assert(r@.errors =~= Seq::<Seq<char>>::empty());
        assert(r@.warnings =~= Seq::<Seq<char>>::empty());
        r
    }

    /// A result with one error.
    pub fn error(message: String) -> (r: ValidationResult)
        ensures
            r@ == (ValidationResultView {
                valid: false,
                errors: seq![message@],
                warnings: Seq::empty(),
            }),
    {
        let mut errors: Vec<String> = Vec::new();
        errors.push(message);
        let r = ValidationResult { valid: false, errors, warnings: Vec::new() };
        assert(r@.errors =~= seq![message@]);
        assert(r@.warnings =~= Seq::<Seq<char>>::empty());
        r
    }

    /// The result with one more warning.
    pub fn with_warning(self, warning: String) -> (r: ValidationResult)
        ensures
            r@ == (ValidationResultView { warnings: self@.warnings.push(warning@), ..self@ }),
    {
        let mut r = self;
        r.add_warning(warning);
        r
    }

    /// Adds an error; the message may no longer pass.
    pub fn add_error(&mut self, error: String)
        ensures
            final(self)@ == (ValidationResultView {
                valid: false,
                errors: old(self)@.errors.push(error@),
                warnings: old(self)@.warnings,
            }),
    {
        self.valid = false;
        self.errors.push(error);
        assert(texts(self.errors@) =~= texts(old(self).errors@).push(error@));
    }

    /// Adds a warning.
    pub fn add_warning(&mut self, warning: String)
        ensures
            final(self)@ == (ValidationResultView {
                warnings: old(self)@.warnings.push(warning@),
                ..old(self)@
            }),
    {
        self.warnings.push(warning);
        assert(texts(self.warnings@) =~= texts(old(self).warnings@).push(warning@));
    }
}

/// Whether a character is a control character.
pub open spec fn spec_is_control(c: char) -> bool {
    (c as u32) <= 0x1f || (0x7f <= (c as u32) && (c as u32) <= 0x9f)
}

/// Computes `spec_is_control`.
#[verifier::when_used_as_spec(spec_is_control)]
pub fn is_control(c: char) -> (r: bool)
    ensures
        r == spec_is_control(c),
{
    (c as u32) <= 0x1f || (0x7f <= (c as u32) && (c as u32) <= 0x9f)
}

/// Whether a text holds a control character other than a line feed or a tab.
pub open spec fn has_control(text: Seq<char>) -> bool {
    exists|i: int|
        0 <= i < text.len() && spec_is_control(#[trigger] text[i]) && text[i] != '\n' && text[i]
            != '\t'
}

fn contains_control(text: &str) -> (r: bool)
    ensures
        r == has_control(text@),
{
    let n = text.unicode_len();
    let mut i: usize = 0;
    while i < n
        invariant
            i <= n,
            n == text@.len(),
            forall|j: int|
                0 <= j < i ==> !(spec_is_control(#[trigger] text@[j]) && text@[j] != '\n'
                    && text@[j] != '\t'),
        decreases n - i,
    {
        let c = text.get_char(i);
        if is_control(c) && c != '\n' && c != '\t' {
            return true;
        }
        i += 1;
    }
    false
}

/// The longest chat message, in bytes.
pub const MAX_CHAT_LENGTH: usize = 500;

/// The largest turn of the view that an input may ask for.
pub const MAX_MOUSE: i32 = 100_000;

/// The largest damage of one hit.
pub const MAX_DAMAGE: u32 = 100;

/// A number as a client reports it: a value in thousandths, or one of the
/// three things that a client can send in place of a number.
#[derive(Debug, Clone, Copy, PartialEq, Eq, Structural)]
pub enum Reading {
    Finite(i32),
    NotANumber,
    Infinite,
    NegativeInfinite,
}

impl Reading {
    /// Whether the reading is a number.
    pub open spec fn spec_is_finite(self) -> bool {
        self is Finite
    }

    /// Whether the reading is a number.
    #[verifier::when_used_as_spec(spec_is_finite)]
    pub fn is_finite(self) -> (finite: bool)
        ensures
            finite == self.spec_is_finite(),
    {
        match self {
            Reading::Finite(_) => true,
            _ => false,
        }
    }

    /// Whether the reading lies further than `limit` from zero. What is not
    /// a number lies nowhere, and the infinite lies beyond every limit.
    pub open spec fn spec_exceeds(self, limit: i32) -> bool {
        match self {
            Reading::Finite(v) => v > limit || v < -limit,
            Reading::NotANumber => false,
            _ => true,
        }
    }

    /// Whether the reading lies further than `limit` from zero.
    #[verifier::when_used_as_spec(spec_exceeds)]
    pub fn exceeds(self, limit: i32) -> (beyond: bool)
        requires
            limit >= 0,
        ensures
            beyond == self.spec_exceeds(limit),
    {
        match self {
            Reading::Finite(v) => v > limit || v < -limit,
            Reading::NotANumber => false,
            _ => true,
        }
    }

    /// The reading as a message names it.
    pub open spec fn text(self) -> Seq<char> {
        match self {
            Reading::Finite(v) => signed_decimal(v as int),
            Reading::NotANumber => "NaN"@,
            Reading::Infinite => "inf"@,
            Reading::NegativeInfinite => "-inf"@,
        }
    }

    /// Appends the reading as a message names it.
    fn append_to(self, s: &mut String)
        ensures
            final(s)@ == old(s)@ + self.text(),
    {
        match self {
            Reading::Finite(v) => append_signed(s, v),
            Reading::NotANumber => append_str(s, "NaN"),
            Reading::Infinite => append_str(s, "inf"),
            Reading::NegativeInfinite => append_str(s, "-inf"),
        }
    }
}

/// The result after the checks of a chat message: an empty one is an error,
/// one longer than `MAX_CHAT_LENGTH` bytes is an error that names the
/// length, and one with control characters gets a warning.
pub open spec fn chat_checked(result: ValidationResultView, message: Seq<char>) -> ValidationResultView {
    let r1 = if message.len() == 0 {
        ValidationResultView {
            valid: false,
            errors: result.errors.push("Chat message cannot be empty"@),
            ..result
        }
    } else {
        result
    };
    let r2 = if encode_utf8(message).len() > MAX_CHAT_LENGTH {
        ValidationResultView {
            valid: false,
            errors: r1.errors.push(
                "Chat message too long: "@ + decimal(encode_utf8(message).len()) + " characters"@,
            ),
            ..r1
        }
    } else {
        r1
    };
    if has_control(message) {
        ValidationResultView {
            warnings: r2.warnings.push("Chat message contains control characters"@),
            ..r2
        }
    } else {
        r2
    }
}

/// The result after the checks of a player's input: opposite keys held
/// together get a warning each, a turn of the view beyond `MAX_MOUSE`
/// either way is an error that names the value, and so is a turn that is no
/// number.
pub open spec fn input_checked(
    result: ValidationResultView,
    forward: bool,
    backward: bool,
    strafe_left: bool,
    strafe_right: bool,
    mouse_x: Reading,
    mouse_y: Reading,
) -> ValidationResultView {
    let w1 = if forward && backward {
        result.warnings.push("Both forward and backward pressed simultaneously"@)
    } else {
        result.warnings
    };
    let w2 = if strafe_left && strafe_right {
        w1.push("Both strafe_left and strafe_right pressed simultaneously"@)
    } else {
        w1
    };
    let e1 = if mouse_x.spec_exceeds(MAX_MOUSE) {
        result.errors.push("Mouse X out of reasonable range: "@ + mouse_x.text())
    } else {
        result.errors
    };
    let e2 = if mouse_y.spec_exceeds(MAX_MOUSE) {
        e1.push("Mouse Y out of reasonable range: "@ + mouse_y.text())
    } else {
        e1
    };
    let e3 = if !mouse_x.spec_is_finite() {
        e2.push("Mouse X is not finite: "@ + mouse_x.text())
    } else {
        e2
    };
    let e4 = if !mouse_y.spec_is_finite() {
        e3.push("Mouse Y is not finite: "@ + mouse_y.text())
    } else {
        e3
    };
    ValidationResultView {
        valid: result.valid && e4.len() == result.errors.len(),
        errors: e4,
        warnings: w2,
    }
}

/// A whole number in decimal notation, with a minus sign where it is negative.
pub open spec fn signed_decimal(n: int) -> Seq<char> {
    if n < 0 {
        seq!['-'] + decimal((-n) as nat)
    } else {
        decimal(n as nat)
    }
}

fn append_signed(s: &mut String, n: i32)
    ensures
        final(s)@ == old(s)@ + signed_decimal(n as int),
{
    if n < 0 {
        crate::text::push_char(s, '-');
        append_decimal(s, (-(n as i64)) as u64);
        assert(s@ =~= old(s)@ + signed_decimal(n as int));
    } else {
        append_decimal(s, n as u64);
    }
}

/// The result after the checks of a hit: an empty target is an error, no
/// damage gets a warning, and damage above `MAX_DAMAGE` is an error that
/// names it.
pub open spec fn hit_checked(
    result: ValidationResultView,
    target_player_id: Seq<char>,
    damage: u32,
) -> ValidationResultView {
    let r1 = if target_player_id.len() == 0 {
        ValidationResultView {
            valid: false,
            errors: result.errors.push("Target player ID cannot be empty"@),
            ..result
        }
    } else {
        result
    };
    if damage == 0 {
        ValidationResultView {
            warnings: r1.warnings.push("Bullet hit with 0 damage"@),
            ..r1
        }
    } else if damage > MAX_DAMAGE {
        ValidationResultView {
            valid: false,
            errors: r1.errors.push("Damage too high: "@ + decimal(damage as nat)),
            ..r1
        }
    } else {
        r1
    }
}

/// The furthest from the origin, along each axis, that a position may lie.
pub const WORLD_BOUNDS: i32 = 1_000_000;

/// The error for the reading of an axis that is no number.
pub open spec fn finite_error(label: Seq<char>, axis: nat, value: Reading) -> Seq<char> {
    label + "["@ + decimal(axis) + "] is not finite: "@ + value.text()
}

/// The error for the reading of an axis beyond the bounds of the world.
pub open spec fn bounds_error(label: Seq<char>, axis: nat, value: Reading) -> Seq<char> {
    label + "["@ + decimal(axis) + "] out of world bounds: "@ + value.text()
}

/// The errors after the check of the first `axes` readings of `values`
/// under the name `label`: each that is no number is an error and, where
/// the readings are `bounded`, so is each beyond `WORLD_BOUNDS` either way;
/// both errors name the axis and the reading.
pub open spec fn reading_errors(
    errors: Seq<Seq<char>>,
    label: Seq<char>,
    values: Seq<Reading>,
    bounded: bool,
    axes: nat,
) -> Seq<Seq<char>>
    decreases axes,
{
    if axes == 0 {
        errors
    } else {
        let earlier = reading_errors(errors, label, values, bounded, (axes - 1) as nat);
        let value = values[axes - 1];
        let e1 = if !value.spec_is_finite() {
            earlier.push(finite_error(label, (axes - 1) as nat, value))
        } else {
            earlier
        };
        if bounded && value.spec_exceeds(WORLD_BOUNDS) {
            e1.push(bounds_error(label, (axes - 1) as nat, value))
        } else {
            e1
        }
    }
}

/// The result after the check of three readings under the name `label`.
pub open spec fn readings_checked(
    result: ValidationResultView,
    label: Seq<char>,
    values: Seq<Reading>,
    bounded: bool,
) -> ValidationResultView {
    let errors = reading_errors(result.errors, label, values, bounded, 3);
    ValidationResultView {
        valid: result.valid && errors.len() == result.errors.len(),
        errors,
        warnings: result.warnings,
    }
}

/// The result after the check of a reported position with its rotations:
/// each coordinate must be a number within `WORLD_BOUNDS`, and each angle of
/// the body and of the turret must be a number.
pub open spec fn position_checked(
    result: ValidationResultView,
    position: Seq<Reading>,
    rotation: Seq<Reading>,
    turret_rotation: Seq<Reading>,
) -> ValidationResultView {
    readings_checked(
        readings_checked(
            readings_checked(result, "Position"@, position, true),
            "Rotation"@,
            rotation,
            false,
        ),
        "Turret rotation"@,
        turret_rotation,
        false,
    )
}

/// Checks three readings under the name `label`.
fn check_readings(label: &str, values: &[Reading; 3], bounded: bool, result: &mut ValidationResult)
    ensures
        final(result)@ == readings_checked(old(result)@, label@, values@, bounded),
{
    let mut i: usize = 0;
    while i < 3
        invariant
            i <= 3,
            result@.errors == reading_errors(
                old(result)@.errors,
                label@,
                values@,
                bounded,
                i as nat,
            ),
            result@.warnings == old(result)@.warnings,
            result@.errors.len() >= old(result)@.errors.len(),
            result@.valid == (old(result)@.valid && result@.errors.len() == old(
                result,
            )@.errors.len()),
        decreases 3 - i,
    {
        let value = values[i];
        if !value.is_finite() {
            let mut e = String::new();
            append_str(&mut e, label);
            append_str(&mut e, "[");
            append_decimal(&mut e, i as u64);
            append_str(&mut e, "] is not finite: ");
            value.append_to(&mut e);
            assert(e@ =~= finite_error(label@, i as nat, value));
            result.add_error(e);
        }
        if bounded && value.exceeds(WORLD_BOUNDS) {
            let mut e = String::new();
            append_str(&mut e, label);
            append_str(&mut e, "[");
            append_decimal(&mut e, i as u64);
            append_str(&mut e, "] out of world bounds: ");
            value.append_to(&mut e);
            assert(e@ =~= bounds_error(label@, i as nat, value));
            result.add_error(e);
        }
        i += 1;
    }
}

/// A message from a client.
#[derive(Debug)]
pub enum ClientMessage {
    PlayerInput {
        forward: bool,
        backward: bool,
        strafe_left: bool,
        strafe_right: bool,
        mouse_x: Reading,
        mouse_y: Reading,
    },
    FireCommand,
    PlayerUpdate { position: [Reading; 3], rotation: [Reading; 3], turret_rotation: [Reading; 3] },
    BulletHit { bullet_id: u128, target_player_id: String, damage: u32 },
    ChatMessage { message: String },
    Ping,
}

impl ClientMessage {
    /// Whether the message travels in the binary form; chat and ping travel
    /// as text.
    pub fn is_binary(&self) -> (binary: bool)
        ensures
            binary == (*self is PlayerInput || *self is FireCommand || *self is PlayerUpdate
                || *self is BulletHit),
    {
        match self {
            ClientMessage::PlayerInput { .. } => true,
            ClientMessage::FireCommand => true,
            ClientMessage::PlayerUpdate { .. } => true,
            ClientMessage::BulletHit { .. } => true,
            _ => false,
        }
    }
}

/// Checks the messages of clients and counts them per player.
pub struct ClientMessageValidator {
    player_message_counts: Vec<(String, u32)>,
    max_messages_per_second: u32,
}

/// The count kept for a player: that of the first entry under its name.
pub open spec fn count_of(counts: Seq<(String, u32)>, player_id: Seq<char>) -> Option<u32>
    decreases counts.len(),
{
    if counts.len() == 0 {
        None
    } else if counts[0].0@ == player_id {
        Some(counts[0].1)
    } else {
        count_of(counts.drop_first(), player_id)
    }
}

/// The text of the error for a player over the limit.
pub open spec fn rate_limit_error(count: u32) -> Seq<char> {
    "Rate limit exceeded: "@ + decimal(count as nat) + " messages/second"@
}

impl ClientMessageValidator {
    /// The number of messages counted for a player since the last reset.
    pub closed spec fn messages_of(&self, player_id: Seq<char>) -> nat {
        match count_of(self.player_message_counts@, player_id) {
            Some(c) => c as nat,
            None => 0,
        }
    }

    /// The number of messages that a player may send between two resets.
    pub closed spec fn limit(&self) -> u32 {
        self.max_messages_per_second
    }

    /// A validator without counts, for 60 messages per player and second.
    pub fn new() -> (v: ClientMessageValidator)
        ensures
            v.limit() == 60,
            forall|player_id: Seq<char>| v.messages_of(player_id) == 0,
    {
        ClientMessageValidator { player_message_counts: Vec::new(), max_messages_per_second: 60 }
    }

    fn position(&self, player_id: &str) -> (r: Option<usize>)
        ensures
            match r {
                Some(i) => i < self.player_message_counts.len() && count_of(
                    self.player_message_counts@,
                    player_id@,
                ) == Some(self.player_message_counts[i as int].1)
                    && self.player_message_counts[i as int].0@ == player_id@ && forall|j: int|
                    0 <= j < i ==> (#[trigger] self.player_message_counts[j]).0@ != player_id@,
                None => count_of(self.player_message_counts@, player_id@) is None,
            },
    {
        let mut i: usize = 0;
        let ghost all = self.player_message_counts@;
        let key = player_id.to_string();
        assert(all.skip(0) =~= all);
        while i < self.player_message_counts.len()
            invariant
                i <= self.player_message_counts.len(),
                all == self.player_message_counts@,
                key@ == player_id@,
                count_of(all, player_id@) == count_of(all.skip(i as int), player_id@),
                forall|j: int| 0 <= j < i ==> (#[trigger] all[j]).0@ != player_id@,
            decreases self.player_message_counts.len() - i,
        {
            proof {
                assert(all.skip(i as int)[0] == all[i as int]);
                assert(all.skip(i as int).drop_first() =~= all.skip(i + 1));
            }
            if self.player_message_counts[i].0 == key {
                return Some(i);
            }
            i += 1;
        }
        None
    }

    /// Counts one more message of a player, up to the largest count, and
    /// tells whether the player is within the limit: otherwise the error says
    /// how many were counted.
    pub fn check_rate_limit(&mut self, player_id: &str) -> (r: Result<(), String>)
        ensures
            final(self).limit() == old(self).limit(),
            final(self).messages_of(player_id@) == if old(self).messages_of(player_id@)
                < u32::MAX {
                old(self).messages_of(player_id@) + 1
            } else {
                old(self).messages_of(player_id@)
            },
            forall|other: Seq<char>|
                other != player_id@ ==> final(self).messages_of(other) == old(self).messages_of(
                    other,
                ),
            match r {
                Ok(_) => final(self).messages_of(player_id@) <= old(self).limit(),
                Err(e) => final(self).messages_of(player_id@) > old(self).limit() && e@
                    == rate_limit_error(final(self).messages_of(player_id@) as u32),
            },
    {
        let count: u32 = match self.position(player_id) {
            Some(i) => {
                let previous = self.player_message_counts[i].1;
                let count = if previous < u32::MAX {
                    previous + 1
                } else {
                    previous
                };
                let name = self.player_message_counts[i].0.clone();
                self.player_message_counts.set(i, (name, count));
                proof {
                    Self::lemma_count_after_set(
                        old(self).player_message_counts@,
                        self.player_message_counts@,
                        i as int,
                        player_id@,
                    );
                }
                count
            },
            None => {
                self.player_message_counts.push((player_id.to_string(), 1));
                proof {
                    Self::lemma_count_after_push(
                        old(self).player_message_counts@,
                        self.player_message_counts@,
                        player_id@,
                    );
                }
                1
            },
        };
        if count > self.max_messages_per_second {
            let mut e = String::new();
            append_str(&mut e, "Rate limit exceeded: ");
            append_decimal(&mut e, count as u64);
            append_str(&mut e, " messages/second");
            assert(e@ =~= rate_limit_error(count));
            Err(e)
        } else {
            Ok(())
        }
    }

    proof fn lemma_count_after_set(
        before: Seq<(String, u32)>,
        after: Seq<(String, u32)>,
        i: int,
        player_id: Seq<char>,
    )
        requires
            0 <= i < before.len(),
            after.len() == before.len(),
            forall|j: int| 0 <= j < before.len() && j != i ==> after[j] == before[j],
            after[i].0@ == before[i].0@,
            before[i].0@ == player_id,
            forall|j: int| 0 <= j < i ==> (#[trigger] before[j]).0@ != player_id,
        ensures
            count_of(after, player_id) == Some(after[i].1),
            forall|other: Seq<char>|
                other != player_id ==> count_of(after, other) == count_of(before, other),
        decreases before.len(),
    {
        assert forall|other: Seq<char>| other != player_id implies count_of(after, other)
            == count_of(before, other) by {
            Self::lemma_count_other(before, after, i, other);
        }
        if i > 0 {
            assert(before[0].0@ != player_id);
            Self::lemma_count_after_set(
                before.drop_first(),
                after.drop_first(),
                i - 1,
                player_id,
            );
        }
    }

    proof fn lemma_count_other(
        before: Seq<(String, u32)>,
        after: Seq<(String, u32)>,
        i: int,
        other: Seq<char>,
    )
        requires
            0 <= i < before.len(),
            after.len() == before.len(),
            forall|j: int| 0 <= j < before.len() && j != i ==> after[j] == before[j],
            after[i].0@ == before[i].0@,
            before[i].0@ != other,
        ensures
            count_of(after, other) == count_of(before, other),
        decreases before.len(),
    {
        if i > 0 {
            Self::lemma_count_other(before.drop_first(), after.drop_first(), i - 1, other);
        } else {
            assert(after.drop_first() =~= before.drop_first());
        }
    }

    proof fn lemma_count_after_push(
        before: Seq<(String, u32)>,
        after: Seq<(String, u32)>,
        player_id: Seq<char>,
    )
        requires
            after.len() == before.len() + 1,
            forall|j: int| 0 <= j < before.len() ==> after[j] == before[j],
            after[before.len() as int].0@ == player_id,
            count_of(before, player_id) is None,
        ensures
            count_of(after, player_id) == Some(after[before.len() as int].1),
            forall|other: Seq<char>|
                other != player_id ==> count_of(after, other) == count_of(before, other),
        decreases before.len(),
    {
        if before.len() > 0 {
            Self::lemma_count_after_push(before.drop_first(), after.drop_first(), player_id);
            assert forall|other: Seq<char>| other != player_id implies count_of(after, other)
                == count_of(before, other) by {
                assert(count_of(after.drop_first(), other) == count_of(
                    before.drop_first(),
                    other,
                ));
            }
        } else {
            assert(after.drop_first() =~= before);
        }
    }

    /// Forgets all counts.
    pub fn reset_rate_limits(&mut self)
        ensures
            final(self).limit() == old(self).limit(),
            forall|player_id: Seq<char>| final(self).messages_of(player_id) == 0,
    {
        self.player_message_counts.clear();
    }

    /// Checks a player's input.
    pub fn validate_player_input(
        &self,
        forward: bool,
        backward: bool,
        strafe_left: bool,
        strafe_right: bool,
        mouse_x: Reading,
        mouse_y: Reading,
        result: &mut ValidationResult,
    )
        ensures
            final(result)@ == input_checked(
                old(result)@,
                forward,
                backward,
                strafe_left,
                strafe_right,
                mouse_x,
                mouse_y,
            ),
    {
        let ghost errors = result@.errors;
        if forward && backward {
            result.add_warning("Both forward and backward pressed simultaneously".to_string());
        }
        if strafe_left && strafe_right {
            result.add_warning(
                "Both strafe_left and strafe_right pressed simultaneously".to_string(),
            );
        }
        if mouse_x.exceeds(MAX_MOUSE) {
            let mut e = String::new();
            append_str(&mut e, "Mouse X out of reasonable range: ");
            mouse_x.append_to(&mut e);
            result.add_error(e);
        }
        if mouse_y.exceeds(MAX_MOUSE) {
            let mut e = String::new();
            append_str(&mut e, "Mouse Y out of reasonable range: ");
            mouse_y.append_to(&mut e);
            result.add_error(e);
        }
        if !mouse_x.is_finite() {
            let mut e = String::new();
            append_str(&mut e, "Mouse X is not finite: ");
            mouse_x.append_to(&mut e);
            result.add_error(e);
        }
        if !mouse_y.is_finite() {
            let mut e = String::new();
            append_str(&mut e, "Mouse Y is not finite: ");
            mouse_y.append_to(&mut e);
            result.add_error(e);
        }
    }

    /// Checks a reported position with its rotations.
    pub fn validate_position_update(
        &self,
        position: &[Reading; 3],
        rotation: &[Reading; 3],
        turret_rotation: &[Reading; 3],
        result: &mut ValidationResult,
    )
        ensures
            final(result)@ == position_checked(
                old(result)@,
                position@,
                rotation@,
                turret_rotation@,
            ),
    {
        check_readings("Position", position, true, result);
        check_readings("Rotation", rotation, false, result);
        check_readings("Turret rotation", turret_rotation, false, result);
    }

    /// Checks a chat message.
    pub fn validate_chat_message(&self, message: &str, result: &mut ValidationResult)
        ensures
            final(result)@ == chat_checked(old(result)@, message@),
    {
        if message.is_empty() {
            result.add_error("Chat message cannot be empty".to_string());
        }
        let length = message.as_bytes().len();
        if length > MAX_CHAT_LENGTH {
            let mut e = String::new();
            append_str(&mut e, "Chat message too long: ");
            append_decimal(&mut e, length as u64);
            append_str(&mut e, " characters");
            result.add_error(e);
        }
        if contains_control(message) {
            result.add_warning("Chat message contains control characters".to_string());
        }
    }

    /// Checks a reported hit.
    pub fn validate_bullet_hit(
        &self,
        target_player_id: &str,
        damage: u32,
        result: &mut ValidationResult,
    )
        ensures
            final(result)@ == hit_checked(old(result)@, target_player_id@, damage),
    {
        if target_player_id.is_empty() {
            result.add_error("Target player ID cannot be empty".to_string());
        }
        if damage == 0 {
            result.add_warning("Bullet hit with 0 damage".to_string());
        } else if damage > MAX_DAMAGE {
            let mut e = String::new();
            append_str(&mut e, "Damage too high: ");
            append_decimal(&mut e, damage as u64);
            result.add_error(e);
        }
    }

    /// Checks a message of a player. A player over the limit gets the one
    /// error of `check_rate_limit` and no further check. Otherwise the
    /// message is checked by its kind; a reported hit is checked and gets a
    /// warning, as clients should no longer report hits.
    pub fn validate(&mut self, player_id: &str, message: &ClientMessage) -> (result:
        ValidationResult)
        ensures
            final(self).limit() == old(self).limit(),
            final(self).messages_of(player_id@) == if old(self).messages_of(player_id@)
                < u32::MAX {
                old(self).messages_of(player_id@) + 1
            } else {
                old(self).messages_of(player_id@)
            },
            forall|other: Seq<char>|
                other != player_id@ ==> final(self).messages_of(other) == old(self).messages_of(
                    other,
                ),
            result@ == if final(self).messages_of(player_id@) > old(self).limit() {
                ValidationResultView {
                    valid: false,
                    errors: seq![rate_limit_error(final(self).messages_of(player_id@) as u32)],
                    warnings: Seq::empty(),
                }
            } else {
                message_checked(*message)
            },
    {
        let mut result = ValidationResult::success();
        match self.check_rate_limit(player_id) {
            Err(e) => {
                result.add_error(e);
                assert(result@.errors =~= seq![e@]);
                return result;
            },
            Ok(_) => {},
        }
        match message {
            ClientMessage::PlayerInput {
                forward,
                backward,
                strafe_left,
                strafe_right,
                mouse_x,
                mouse_y,
            } => {
                self.validate_player_input(
                    *forward,
                    *backward,
                    *strafe_left,
                    *strafe_right,
                    *mouse_x,
                    *mouse_y,
                    &mut result,
                );
            },
            ClientMessage::FireCommand => {},
            ClientMessage::PlayerUpdate { position, rotation, turret_rotation } => {
                self.validate_position_update(position, rotation, turret_rotation, &mut result);
                result.add_warning("Using deprecated PlayerUpdate message".to_string());
            },
            ClientMessage::ChatMessage { message } => {
                self.validate_chat_message(message.as_str(), &mut result);
            },
            ClientMessage::BulletHit { bullet_id, target_player_id, damage } => {
                self.validate_bullet_hit(target_player_id.as_str(), *damage, &mut result);
                result.add_warning("Using deprecated BulletHit message".to_string());
            },
            ClientMessage::Ping => {},
        }
        result
    }
}

/// The result of the checks of a message by its kind.
pub open spec fn message_checked(message: ClientMessage) -> ValidationResultView {
    let clean = ValidationResultView { valid: true, errors: Seq::empty(), warnings: Seq::empty() };
    match message {
        ClientMessage::PlayerInput {
            forward,
            backward,
            strafe_left,
            strafe_right,
            mouse_x,
            mouse_y,
        } => input_checked(clean, forward, backward, strafe_left, strafe_right, mouse_x, mouse_y),
        ClientMessage::PlayerUpdate { position, rotation, turret_rotation } => {
            let r = position_checked(clean, position@, rotation@, turret_rotation@);
            ValidationResultView {
                warnings: r.warnings.push("Using deprecated PlayerUpdate message"@),
                ..r
            }
        },
        ClientMessage::ChatMessage { message } => chat_checked(clean, message@),
        ClientMessage::BulletHit { bullet_id, target_player_id, damage } => {
            let r = hit_checked(clean, target_player_id@, damage);
            ValidationResultView {
                warnings: r.warnings.push("Using deprecated BulletHit message"@),
                ..r
            }
        },
        _ => clean,
    }
}

/// The result after the checks of a chat message that is to be sent on: an
/// empty sender and an empty message are errors, a time of zero gets a warning.
pub open spec fn broadcast_checked(
    result: ValidationResultView,
    player_id: Seq<char>,
    message: Seq<char>,
    timestamp: u64,
) -> ValidationResultView {
    let r1 = if player_id.len() == 0 {
        ValidationResultView {
            valid: false,
            errors: result.errors.push("Chat message player_id cannot be empty"@),
            ..result
        }
    } else {
        result
    };
    let r2 = if message.len() == 0 {
        ValidationResultView {
            valid: false,
            errors: r1.errors.push("Chat message cannot be empty"@),
            ..r1
        }
    } else {
        r1
    };
    if timestamp == 0 {
        ValidationResultView {
            warnings: r2.warnings.push("Chat message has zero timestamp"@),
            ..r2
        }
    } else {
        r2
    }
}

/// The result after the checks of a hit on an enemy: no damage gets a
/// warning, damage above `MAX_DAMAGE` is an error that names it.
pub open spec fn enemy_hit_checked(result: ValidationResultView, damage: u32) -> ValidationResultView {
    if damage == 0 {
        ValidationResultView {
            warnings: result.warnings.push("Enemy hit with 0 damage"@),
            ..result
        }
    } else if damage > MAX_DAMAGE {
        ValidationResultView {
            valid: false,
            errors: result.errors.push("Enemy damage too high: "@ + decimal(damage as nat)),
            ..result
        }
    } else {
        result
    }
}

/// A message from the server.
#[derive(Debug)]
pub enum ServerMessage {
    PlayerMoved {
        player_id: String,
        position: [Reading; 3],
        rotation: [Reading; 3],
        turret_rotation: [Reading; 3],
    },
    PlayerLeft { player_id: String },
    ChatMessage { player_id: String, message: String, timestamp: u64 },
    EnemyHit { enemy_id: u128, bullet_id: u128, damage: u32, new_health: u32 },
    Pong,
}

/// The result after the checks of a move that the server reports: it must
/// name its player, and each coordinate and each angle must be a number.
pub open spec fn moved_checked(
    result: ValidationResultView,
    player_id: Seq<char>,
    position: Seq<Reading>,
    rotation: Seq<Reading>,
    turret_rotation: Seq<Reading>,
) -> ValidationResultView {
    let named = if player_id.len() == 0 {
        ValidationResultView {
            valid: false,
            errors: result.errors.push("Player ID cannot be empty"@),
            ..result
        }
    } else {
        result
    };
    readings_checked(
        readings_checked(
            readings_checked(named, "Player position"@, position, false),
            "Player rotation"@,
            rotation,
            false,
        ),
        "Player turret rotation"@,
        turret_rotation,
        false,
    )
}

/// The result of the checks of a server message by its kind: a move is
/// checked as `moved_checked` says, a chat message and a hit are checked as
/// `broadcast_checked` and `enemy_hit_checked` say, and anything else passes.
pub open spec fn server_message_checked(message: ServerMessage) -> ValidationResultView {
    let clean = ValidationResultView { valid: true, errors: Seq::empty(), warnings: Seq::empty() };
    match message {
        ServerMessage::PlayerMoved {
            player_id,
            position,
            rotation,
            turret_rotation,
        } => moved_checked(clean, player_id@, position@, rotation@, turret_rotation@),
        ServerMessage::ChatMessage { player_id, message, timestamp } => broadcast_checked(
            clean,
            player_id@,
            message@,
            timestamp,
        ),
        ServerMessage::EnemyHit { enemy_id, bullet_id, damage, new_health } => enemy_hit_checked(
            clean,
            damage,
        ),
        _ => clean,
    }
}

/// Checks the messages that the server sends.
#[derive(Debug, Clone, Copy, PartialEq, Eq, Structural)]
pub struct ServerMessageValidator {}

impl ServerMessageValidator {
    pub fn new() -> ServerMessageValidator {
        ServerMessageValidator {  }
    }

    /// Checks a message before it is sent.
    pub fn validate(&self, message: &ServerMessage) -> (result: ValidationResult)
        ensures
            result@ == server_message_checked(*message),
    {
        let mut result = ValidationResult::success();
        match message {
            ServerMessage::PlayerMoved { player_id, position, rotation, turret_rotation } => {
                self.validate_player_moved(
                    player_id.as_str(),
                    position,
                    rotation,
                    turret_rotation,
                    &mut result,
                );
            },
            ServerMessage::ChatMessage { player_id, message, timestamp } => {
                self.validate_chat_message_broadcast(
                    player_id.as_str(),
                    message.as_str(),
                    *timestamp,
                    &mut result,
                );
            },
            ServerMessage::EnemyHit { enemy_id, bullet_id, damage, new_health } => {
                self.validate_enemy_hit(*damage, &mut result);
            },
            _ => {},
        }
        result
    }

    /// Checks a move that the server reports.
    pub fn validate_player_moved(
        &self,
        player_id: &str,
        position: &[Reading; 3],
        rotation: &[Reading; 3],
        turret_rotation: &[Reading; 3],
        result: &mut ValidationResult,
    )
        ensures
            final(result)@ == moved_checked(
                old(result)@,
                player_id@,
                position@,
                rotation@,
                turret_rotation@,
            ),
    {
        if player_id.is_empty() {
            result.add_error("Player ID cannot be empty".to_string());
        }
        check_readings("Player position", position, false, result);
        check_readings("Player rotation", rotation, false, result);
        check_readings("Player turret rotation", turret_rotation, false, result);
    }

    /// Checks a chat message that is to be sent on.
    pub fn validate_chat_message_broadcast(
        &self,
        player_id: &str,
        message: &str,
        timestamp: u64,
        result: &mut ValidationResult,
    )
        ensures
            final(result)@ == broadcast_checked(old(result)@, player_id@, message@, timestamp),
    {
        if player_id.is_empty() {
            result.add_error("Chat message player_id cannot be empty".to_string());
        }
        if message.is_empty() {
            result.add_error("Chat message cannot be empty".to_string());
        }
        if timestamp == 0 {
            result.add_warning("Chat message has zero timestamp".to_string());
        }
    }

    /// Checks a hit on an enemy.
    pub fn validate_enemy_hit(&self, damage: u32, result: &mut ValidationResult)
        ensures
            final(result)@ == enemy_hit_checked(old(result)@, damage),
    {
        if damage == 0 {
            result.add_warning("Enemy hit with 0 damage".to_string());
        }
        if damage > MAX_DAMAGE {
            let mut e = String::new();
            append_str(&mut e, "Enemy damage too high: ");
            append_decimal(&mut e, damage as u64);
            result.add_error(e);
        }
    }
}

/// Which checks are made.
#[derive(Debug, Clone, Copy, PartialEq, Eq, Structural)]
pub struct ValidationConfig {
    pub enable_client_validation: bool,
    pub enable_server_validation: bool,
    /// Whether a message with warnings is turned away.
    pub strict_mode: bool,
}

impl Default for ValidationConfig {
    fn default() -> (c: ValidationConfig)
        ensures
            c == (ValidationConfig {
                enable_client_validation: true,
                enable_server_validation: true,
                strict_mode: false,
            }),
    {
        ValidationConfig {
            enable_client_validation: true,
            enable_server_validation: true,
            strict_mode: false,
        }
    }
}

} // verus!
