//! The two ways to decode: one token at a time, and with drafts that are checked
//! several at once.
//!
//! A session holds the positions, the counts and the text of one generation. The
//! model, the sampler and the drafts are outside work: the session says what to do
//! next and takes what came of it.

use vstd::prelude::*;
use vstd::utf8::{encode_utf8, valid_utf8};

use crate::llm::{last_position, TokenUsage};

verus! {

/// An incremental decoder of `encoding_rs`.
#[verifier::external_type_specification]
#[verifier::external_body]
pub struct ExDecoder(encoding_rs::Decoder);

/// The bytes that a decoder was fed so far, where it is one that
/// `encoding_rs::UTF_8.new_decoder()` made and that was not told to finish; none
/// for any other decoder.
pub uninterp spec fn decoder_fed(decoder: encoding_rs::Decoder) -> Option<Seq<u8>>;

/// The text that such a decoder gives for further bytes, after the bytes it was
/// fed before.
pub uninterp spec fn decoded_text(fed: Seq<u8>, bytes: Seq<u8>) -> Seq<char>;

/// `encoding_rs::Encoding::new_decoder` of `UTF_8`: a decoder that was fed nothing.
#[verifier::external_body]
fn utf8_decoder() -> (decoder: encoding_rs::Decoder)
    ensures
        decoder_fed(decoder) == Some(Seq::<u8>::empty()),
{
    encoding_rs::UTF_8.new_decoder()
}

/// `encoding_rs::Decoder::decode_to_string`, with as much room as
/// `encoding_rs::Decoder::max_utf8_buffer_length` asks for. With that room the
/// decoder takes all bytes. It asks for three bytes for each one and a few more, so
/// it names a room for every input that is not close to the address space. Bytes
/// that are part of a character are kept until the rest of it comes.
#[verifier::external_body]
fn decode_chunk(decoder: &mut encoding_rs::Decoder, bytes: &[u8]) -> (text: Option<String>)
    requires
        decoder_fed(*old(decoder)) is Some,
    ensures
        bytes@.len() <= 0x1000_0000 ==> text is Some,
        text matches Some(piece) ==> piece@ == decoded_text(
            decoder_fed(*old(decoder))->0,
            bytes@,
        ) && decoder_fed(*final(decoder)) == Some(decoder_fed(*old(decoder))->0 + bytes@),
        text is None ==> decoder_fed(*final(decoder)) == decoder_fed(*old(decoder)),
{
    let mut output = String::with_capacity(decoder.max_utf8_buffer_length(bytes.len())?);
    decoder.decode_to_string(bytes, &mut output, false);
    Some(output)
}

/// The most bytes of one token.
pub const MAX_PIECE: usize = 0x1000_0000;

/// The text of a generation, which comes token by token.
pub struct OutputText {
    decoder: encoding_rs::Decoder,
    text: String,
}

/// The text of pieces that are decoded one after the other.
pub open spec fn text_of_pieces(pieces: Seq<Seq<u8>>) -> Seq<char>
    decreases pieces.len(),
{
    if pieces.len() == 0 {
        Seq::empty()
    } else {
        text_of_pieces(pieces.drop_last()) + decoded_text(
            bytes_of_pieces(pieces.drop_last()),
            pieces.last(),
        )
    }
}

/// The bytes of pieces.
pub open spec fn bytes_of_pieces(pieces: Seq<Seq<u8>>) -> Seq<u8>
    decreases pieces.len(),
{
    if pieces.len() == 0 {
        Seq::empty()
    } else {
        bytes_of_pieces(pieces.drop_last()) + pieces.last()
    }
}

impl OutputText {
    /// The text is that of the pieces.
    pub closed spec fn holds(&self, pieces: Seq<Seq<u8>>) -> bool {
        &&& decoder_fed(self.decoder) == Some(bytes_of_pieces(pieces))
        &&& self.text@ == text_of_pieces(pieces)
    }

    /// The text so far.
    pub closed spec fn text(&self) -> Seq<char> {
        self.text@
    }

    /// The text before the first token.
    fn new() -> (output: OutputText)
        ensures
            output.holds(Seq::empty()),
    {
        OutputText { decoder: utf8_decoder(), text: String::new() }
    }

    /// Appends the text of a token.
    fn append(self, piece: &Vec<u8>, pieces: Ghost<Seq<Seq<u8>>>) -> (output: OutputText)
        requires
            self.holds(pieces@),
            piece@.len() <= MAX_PIECE,
        ensures
            output.holds(pieces@.push(piece@)),
    {
        let mut decoder = self.decoder;
        let mut text = self.text;
        let decoded = decode_piece(&mut decoder, piece.as_slice());
        text.append(decoded.as_str());
        assert(pieces@.push(piece@).drop_last() =~= pieces@);
        OutputText { decoder, text }
    }

    fn into_text(self) -> (text: String)
        ensures
            text@ == self.text(),
    {
        self.text
    }
}

/// Decodes the bytes of one token. Bytes of a character that is not complete yet
/// come out with a later token.
fn decode_piece(decoder: &mut encoding_rs::Decoder, bytes: &[u8]) -> (text: String)
    requires
        decoder_fed(*old(decoder)) is Some,
        bytes@.len() <= MAX_PIECE,
    ensures
        text@ == decoded_text(decoder_fed(*old(decoder))->0, bytes@),
        decoder_fed(*final(decoder)) == Some(decoder_fed(*old(decoder))->0 + bytes@),
{
    match decode_chunk(decoder, bytes) {
        Some(text) => text,
        None => String::new(),
    }
}

/// What comes next in a session.
#[derive(Clone, Copy, Debug, PartialEq, Eq, Structural)]
pub enum DecodeNext {
    /// The generation is over.
    Finish,
    /// It was cancelled.
    Cancelled,
    /// Go on with the next token.
    GoOn,
}

/// A generation that decodes one token at a time.
pub struct DecodeSession {
    start: i32,
    position: i32,
    limit: i32,
    ended: bool,
    output_tokens: u32,
    output: OutputText,
    pieces: Ghost<Seq<Seq<u8>>>,
}

/// The meaning of a [`DecodeSession`].
pub struct DecodeView {
    /// The first position behind the prompt.
    pub start: int,
    /// The next position.
    pub position: int,
    /// The last position that may be generated.
    pub limit: int,
    /// The end-of-generation token was sampled.
    pub ended: bool,
    /// The tokens that were generated, the end-of-generation token left out.
    pub output_tokens: nat,
    /// The bytes of the generated tokens, token by token.
    pub pieces: Seq<Seq<u8>>,
}

impl View for DecodeSession {
    type V = DecodeView;

    closed spec fn view(&self) -> DecodeView {
        DecodeView {
            start: self.start as int,
            position: self.position as int,
            limit: self.limit as int,
            ended: self.ended,
            output_tokens: self.output_tokens as nat,
            pieces: self.pieces@,
        }
    }
}

/// What comes next: nothing at the end, and a cancellation is seen before every
/// token.
pub open spec fn next_of(position: int, limit: int, ended: bool, cancelled: bool) -> DecodeNext {
    if ended || position > limit {
        DecodeNext::Finish
    } else if cancelled {
        DecodeNext::Cancelled
    } else {
        DecodeNext::GoOn
    }
}

impl DecodeView {
    /// What every session keeps: one position and one piece for each token, and no
    /// position behind the limit.
    pub open spec fn sound(self) -> bool {
        &&& 0 <= self.start
        &&& self.position == self.start + self.output_tokens
        &&& self.position == self.start || self.position <= self.limit + 1
        &&& self.pieces.len() == self.output_tokens
    }

    /// The session after a sampled token: one that ends the generation leaves no
    /// piece and has no position.
    pub open spec fn after(self, is_eog: bool, piece: Seq<u8>) -> DecodeView {
        if is_eog {
            DecodeView { ended: true, ..self }
        } else {
            DecodeView {
                position: self.position + 1,
                output_tokens: self.output_tokens + 1,
                pieces: self.pieces.push(piece),
                ..self
            }
        }
    }

    /// The session after tokens that do not end the generation.
    pub open spec fn after_pieces(self, pieces: Seq<Seq<u8>>) -> DecodeView
        decreases pieces.len(),
    {
        if pieces.len() == 0 {
            self
        } else {
            self.after_pieces(pieces.drop_last()).after(false, pieces.last())
        }
    }
}

impl DecodeSession {
    #[verifier::type_invariant]
    closed spec fn in_step(&self) -> bool {
        &&& self@.sound()
        &&& self.limit < i32::MAX
        &&& self.output.holds(self.pieces@)
    }

    /// The session behind a prompt of so many tokens.
    pub fn new(prompt_tokens: i32, output_limit: i32) -> (session: DecodeSession)
        requires
            0 <= prompt_tokens,
            output_limit < i32::MAX,
        ensures
            session@ == (DecodeView {
                start: prompt_tokens as int,
                position: prompt_tokens as int,
                limit: output_limit as int,
                ended: false,
                output_tokens: 0,
                pieces: Seq::empty(),
            }),
    {
        DecodeSession {
            start: prompt_tokens,
            position: prompt_tokens,
            limit: output_limit,
            ended: false,
            output_tokens: 0,
            output: OutputText::new(),
            pieces: Ghost(Seq::empty()),
        }
    }

    /// What comes next.
    pub fn next(&self, cancelled: bool) -> (next: DecodeNext)
        ensures
            next == next_of(self@.position, self@.limit, self@.ended, cancelled),
    {
        if self.ended || self.position > self.limit {
            DecodeNext::Finish
        } else if cancelled {
            DecodeNext::Cancelled
        } else {
            DecodeNext::GoOn
        }
    }

    /// Takes the sampled token: its bytes, and whether it ends the generation. A
    /// token that does not is counted and is to be evaluated at the position that
    /// comes back.
    pub fn take(self, is_eog: bool, piece: Vec<u8>) -> (taken: (DecodeSession, Option<i32>))
        requires
            next_of(self@.position, self@.limit, self@.ended, false) is GoOn,
            piece@.len() <= MAX_PIECE,
        ensures
            taken.0@ == self@.after(is_eog, piece@),
            if is_eog {
                taken.1 is None && taken.0@ == (DecodeView { ended: true, ..self@ })
            } else {
                &&& taken.1 matches Some(position) && position == self@.position
                &&& taken.0@ == (DecodeView {
                    position: self@.position + 1,
                    output_tokens: self@.output_tokens + 1,
                    pieces: self@.pieces.push(piece@),
                    ..self@
                })
            },
    {
        proof {
            use_type_invariant(&self);
        }
        if is_eog {
            let session = DecodeSession {
                start: self.start,
                position: self.position,
                limit: self.limit,
                ended: true,
                output_tokens: self.output_tokens,
                output: self.output,
                pieces: self.pieces,
            };
            return (session, None);
        }
        let mut usage = TokenUsage {
            input_tokens: 0,
            output_tokens: self.output_tokens,
            reasoning_tokens: 0,
        };
        usage.record_output(false);
        let position: i32 = self.position;
        let session = DecodeSession {
            start: self.start,
            position: position + 1,
            limit: self.limit,
            ended: false,
            output_tokens: usage.output_tokens,
            output: self.output.append(&piece, self.pieces),
            pieces: Ghost(self.pieces@.push(piece@)),
        };
        (session, Some(position))
    }

    /// Ends the session: the generated text and the number of its tokens.
    pub fn finish(self) -> (finished: (String, u32))
        ensures
            finished.0@ == text_of_pieces(self@.pieces),
            finished.1 == self@.output_tokens,
            self@.sound(),
    {
        proof {
            use_type_invariant(&self);
        }
        (self.output.into_text(), self.output_tokens)
    }
}

/// A generation that decodes with drafts. It holds the token that was sampled last
/// and is not evaluated yet.
pub struct MtpSession {
    start: i32,
    position: i32,
    limit: i32,
    token: i32,
    token_is_eog: bool,
    eog_evaluated: bool,
    output_tokens: u32,
    proposed: u64,
    accepted: u64,
    output: OutputText,
    pieces: Ghost<Seq<Seq<u8>>>,
    emitted: Ghost<Seq<i32>>,
    sampled: Ghost<Seq<i32>>,
}

/// The meaning of an [`MtpSession`].
pub struct MtpView {
    /// The first position behind the prompt.
    pub start: int,
    /// The next position.
    pub position: int,
    /// The last position that may be generated.
    pub limit: int,
    /// The token that was sampled last.
    pub token: i32,
    pub token_is_eog: bool,
    /// The end-of-generation token was an accepted draft and has a position.
    pub eog_evaluated: bool,
    /// The tokens that came out, the end-of-generation token left out.
    pub emitted: Seq<i32>,
    /// The bytes of those tokens.
    pub pieces: Seq<Seq<u8>>,
    /// Every token that was sampled.
    pub sampled: Seq<i32>,
    /// How many drafts were checked.
    pub proposed: nat,
    /// How many of them were taken.
    pub accepted: nat,
}

impl View for MtpSession {
    type V = MtpView;

    closed spec fn view(&self) -> MtpView {
        MtpView {
            start: self.start as int,
            position: self.position as int,
            limit: self.limit as int,
            token: self.token,
            token_is_eog: self.token_is_eog,
            eog_evaluated: self.eog_evaluated,
            emitted: self.emitted@,
            pieces: self.pieces@,
            sampled: self.sampled@,
            proposed: self.proposed as nat,
            accepted: self.accepted as nat,
        }
    }
}

/// What comes next: nothing behind the last position; a cancellation is seen before
/// the end-of-generation token.
pub open spec fn mtp_next_of(
    position: int,
    limit: int,
    token_is_eog: bool,
    cancelled: bool,
) -> DecodeNext {
    if position > limit {
        DecodeNext::Finish
    } else if cancelled {
        DecodeNext::Cancelled
    } else if token_is_eog {
        DecodeNext::Finish
    } else {
        DecodeNext::GoOn
    }
}

impl MtpView {
    /// What every session keeps. The tokens that came out and the one that was
    /// sampled last are all that was sampled, in that order: a draft never changes
    /// what is generated.
    pub open spec fn sound(self) -> bool {
        &&& 0 <= self.start <= self.position
        &&& self.position == self.start + self.emitted.len() + if self.eog_evaluated {
            1int
        } else {
            0int
        }
        &&& self.eog_evaluated ==> self.token_is_eog
        &&& self.position == self.start || self.position <= self.limit + 1
        &&& self.pieces.len() == self.emitted.len()
        &&& self.sampled == self.emitted.push(self.token)
        &&& self.accepted <= self.proposed
        &&& self.accepted <= self.position - self.start
    }
}

impl MtpSession {
    #[verifier::type_invariant]
    closed spec fn in_step(&self) -> bool {
        &&& self@.sound()
        &&& self.limit < i32::MAX
        &&& self.output_tokens == self.emitted@.len()
        &&& self.proposed <= (self.position - self.start) * 0x7fff_ffff
        &&& self.output.holds(self.pieces@)
    }

    /// The session behind a prompt of so many tokens, with the first sampled token.
    pub fn new(
        prompt_tokens: i32,
        output_limit: i32,
        token: i32,
        token_is_eog: bool,
    ) -> (session: MtpSession)
        requires
            0 <= prompt_tokens,
            output_limit < i32::MAX,
        ensures
            session@ == (MtpView {
                start: prompt_tokens as int,
                position: prompt_tokens as int,
                limit: output_limit as int,
                token,
                token_is_eog,
                eog_evaluated: false,
                emitted: Seq::empty(),
                pieces: Seq::empty(),
                sampled: seq![token],
                proposed: 0,
                accepted: 0,
            }),
    {
        let ghost none: Seq<i32> = Seq::empty();
        let ghost first = seq![token];
        assert(none.push(token) =~= first);
        MtpSession {
            start: prompt_tokens,
            position: prompt_tokens,
            limit: output_limit,
            token,
            token_is_eog,
            eog_evaluated: false,
            output_tokens: 0,
            proposed: 0,
            accepted: 0,
            output: OutputText::new(),
            pieces: Ghost(Seq::empty()),
            emitted: Ghost(Seq::empty()),
            sampled: Ghost(first),
        }
    }

    /// The position at which the next token is evaluated.
    pub fn position(&self) -> (position: i32)
        ensures
            position == self@.position,
    {
        self.position
    }

    /// The token that was sampled last.
    pub fn token(&self) -> (token: i32)
        ensures
            token == self@.token,
    {
        self.token
    }

    /// How many drafts were checked so far, and how many of them were taken.
    pub fn totals(&self) -> (totals: (u64, u64))
        ensures
            totals.0 == self@.proposed,
            totals.1 == self@.accepted,
            totals.1 <= totals.0,
    {
        proof {
            use_type_invariant(self);
        }
        (self.proposed, self.accepted)
    }

    /// What comes next.
    pub fn next(&self, cancelled: bool) -> (next: DecodeNext)
        ensures
            next == mtp_next_of(self@.position, self@.limit, self@.token_is_eog, cancelled),
    {
        if self.position > self.limit {
            DecodeNext::Finish
        } else if cancelled {
            DecodeNext::Cancelled
        } else if self.token_is_eog {
            DecodeNext::Finish
        } else {
            DecodeNext::GoOn
        }
    }

    /// Begins a round: the token comes out with its bytes, and the drafts that fit
    /// before the last position are to be checked.
    pub fn begin_round(self, piece: Vec<u8>, drafts: Vec<i32>) -> (round: MtpRound)
        requires
            mtp_next_of(self@.position, self@.limit, self@.token_is_eog, false) is GoOn,
            piece@.len() <= MAX_PIECE,
        ensures
            round@ == (RoundView {
                before: self@,
                piece: piece@,
                drafts: drafts@.take(
                    if drafts@.len() <= self@.limit - self@.position {
                        drafts@.len() as int
                    } else {
                        self@.limit - self@.position
                    },
                ),
                offered: drafts@.len() > 0,
                accepted: 0,
                samples: Seq::empty(),
                last_is_eog: false,
                done: false,
            }),
            round@ == self@.begun(piece@, drafts@),
    {
        proof {
            use_type_invariant(&self);
        }
        let ghost before = self@;
        let offered = drafts.len() > 0;
        let room: usize = (self.limit - self.position) as usize;
        let mut drafts = drafts;
        let ghost given = drafts@;
        if drafts.len() > room {
            drafts.truncate(room);
        }
        assert(drafts@ =~= given.take(
            if given.len() <= before.limit - before.position {
                given.len() as int
            } else {
                before.limit - before.position
            },
        ));
        let output = self.output.append(&piece, self.pieces);
        MtpRound {
            start: self.start,
            position: self.position,
            limit: self.limit,
            output_tokens: self.output_tokens + 1,
            proposed: self.proposed,
            accepted_before: self.accepted,
            output,
            drafts,
            offered,
            accepted: 0,
            next: 0,
            next_is_eog: false,
            eog_taken: false,
            done: false,
            before: Ghost(before),
            piece: Ghost(piece@),
            samples: Ghost(Seq::empty()),
        }
    }

    /// Ends the session: the generated text and the number of its tokens.
    pub fn finish(self) -> (finished: (String, u32))
        ensures
            finished.0@ == text_of_pieces(self@.pieces),
            finished.1 == self@.emitted.len(),
            self@.sound(),
    {
        proof {
            use_type_invariant(&self);
        }
        (self.output.into_text(), self.output_tokens)
    }
}

/// One round of speculative decoding: a token, and the drafts that are checked
/// against what is sampled behind it.
pub struct MtpRound {
    start: i32,
    position: i32,
    limit: i32,
    output_tokens: u32,
    proposed: u64,
    accepted_before: u64,
    output: OutputText,
    drafts: Vec<i32>,
    offered: bool,
    accepted: usize,
    next: i32,
    next_is_eog: bool,
    eog_taken: bool,
    done: bool,
    before: Ghost<MtpView>,
    piece: Ghost<Seq<u8>>,
    samples: Ghost<Seq<i32>>,
}

/// The meaning of an [`MtpRound`].
pub struct RoundView {
    /// The session before the round.
    pub before: MtpView,
    /// The bytes of the token that came out.
    pub piece: Seq<u8>,
    /// The drafts that are checked.
    pub drafts: Seq<i32>,
    /// The draft model offered some, so that it is to be told how many were taken.
    pub offered: bool,
    /// The drafts that were taken.
    pub accepted: nat,
    /// What was sampled in this round.
    pub samples: Seq<i32>,
    /// The last sample ends the generation.
    pub last_is_eog: bool,
    /// Nothing more is to be sampled.
    pub done: bool,
}

impl MtpView {
    /// The round that begins with the bytes of the session's token and with drafts:
    /// as many of them as positions are left behind the token.
    pub open spec fn begun(self, piece: Seq<u8>, drafts: Seq<i32>) -> RoundView {
        RoundView {
            before: self,
            piece,
            drafts: drafts.take(
                if drafts.len() <= self.limit - self.position {
                    drafts.len() as int
                } else {
                    self.limit - self.position
                },
            ),
            offered: drafts.len() > 0,
            accepted: 0,
            samples: Seq::empty(),
            last_is_eog: false,
            done: false,
        }
    }
}

impl RoundView {
    /// What every round keeps: the drafts that were taken are what was sampled.
    pub open spec fn sound(self) -> bool {
        &&& self.before.sound()
        &&& mtp_next_of(self.before.position, self.before.limit, self.before.token_is_eog, false)
            is GoOn
        &&& self.drafts.len() <= self.before.limit - self.before.position
        &&& self.accepted <= self.drafts.len()
        &&& self.accepted <= self.samples.len() <= self.accepted + 1
        &&& forall|i: int| 0 <= i < self.accepted ==> self.samples[i] == self.drafts[i]
        &&& self.done ==> self.samples.len() > 0
        &&& self.samples.len() == self.accepted && self.accepted > 0 && self.done
            ==> self.last_is_eog
        &&& !self.done ==> self.samples.len() == self.accepted && !self.last_is_eog
    }

    /// The round after a sample: a draft that it equals is taken, and the next one
    /// is checked unless the generation ends there.
    pub open spec fn after(self, sample: i32, is_eog: bool) -> RoundView {
        let hit = self.accepted < self.drafts.len() && self.drafts[self.accepted as int] == sample;
        RoundView {
            samples: self.samples.push(sample),
            accepted: if hit {
                self.accepted + 1
            } else {
                self.accepted
            },
            last_is_eog: is_eog,
            done: !hit || is_eog,
            ..self
        }
    }

    /// The last draft that was taken ends the generation.
    pub open spec fn eog_taken(self) -> bool {
        self.done && self.accepted > 0 && self.samples.len() == self.accepted
    }

    /// The position behind the round.
    pub open spec fn next_position(self) -> int {
        self.before.position + 1 + self.accepted
    }

    /// The session behind the round, given the bytes of the drafts that come out.
    pub open spec fn ended(self, pieces: Seq<Seq<u8>>) -> MtpView {
        MtpView {
            position: self.next_position(),
            token: self.samples.last(),
            token_is_eog: self.last_is_eog,
            eog_evaluated: self.eog_taken(),
            emitted: self.before.emitted.push(self.before.token) + self.kept(),
            pieces: self.before.pieces.push(self.piece) + pieces,
            sampled: self.before.sampled + self.samples,
            proposed: self.before.proposed + self.drafts.len(),
            accepted: self.before.accepted + self.accepted,
            ..self.before
        }
    }

    /// The drafts that come out: those that were taken, without one that ends the
    /// generation.
    pub open spec fn kept(self) -> Seq<i32> {
        self.drafts.take(
            if self.eog_taken() {
                self.accepted - 1
            } else {
                self.accepted as int
            },
        )
    }
}

impl View for MtpRound {
    type V = RoundView;

    closed spec fn view(&self) -> RoundView {
        RoundView {
            before: self.before@,
            piece: self.piece@,
            drafts: self.drafts@,
            offered: self.offered,
            accepted: self.accepted as nat,
            samples: self.samples@,
            last_is_eog: self.next_is_eog,
            done: self.done,
        }
    }
}

impl MtpRound {
    #[verifier::type_invariant]
    closed spec fn in_step(&self) -> bool {
        &&& self@.sound()
        &&& self.start == self.before@.start
        &&& self.position == self.before@.position
        &&& self.limit == self.before@.limit
        &&& self.limit < i32::MAX
        &&& self.output_tokens == self.before@.emitted.len() + 1
        &&& self.proposed == self.before@.proposed
        &&& self.proposed <= (self.position - self.start) * 0x7fff_ffff
        &&& self.accepted_before == self.before@.accepted
        &&& self.output.holds(self.before@.pieces.push(self.piece@))
        &&& self.samples@.len() > 0 ==> self.next == self.samples@.last()
        &&& self.eog_taken == self@.eog_taken()
    }

    /// The drafts that are checked, in order. They are evaluated behind the token,
    /// which is evaluated at the position of the session.
    pub fn drafts(&self) -> (drafts: &Vec<i32>)
        ensures
            drafts@ == self@.drafts,
    {
        &self.drafts
    }

    /// Takes the token that was sampled behind the drafts taken so far. Gives the
    /// place to sample at next, or nothing when the round is over.
    pub fn verify(self, sample: i32, is_eog: bool) -> (verified: (MtpRound, Option<usize>))
        requires
            !self@.done,
        ensures
            verified.0@ == self@.after(sample, is_eog),
            verified.1 == if self@.after(sample, is_eog).done {
                None
            } else {
                Some(self@.after(sample, is_eog).accepted as usize)
            },
    {
        proof {
            use_type_invariant(&self);
        }
        let hit = self.accepted < self.drafts.len() && self.drafts[self.accepted] == sample;
        let accepted: usize = if hit {
            self.accepted + 1
        } else {
            self.accepted
        };
        let done = !hit || is_eog;
        let round = MtpRound {
            start: self.start,
            position: self.position,
            limit: self.limit,
            output_tokens: self.output_tokens,
            proposed: self.proposed,
            accepted_before: self.accepted_before,
            output: self.output,
            drafts: self.drafts,
            offered: self.offered,
            accepted,
            next: sample,
            next_is_eog: is_eog,
            eog_taken: hit && is_eog,
            done,
            before: self.before,
            piece: self.piece,
            samples: Ghost(self.samples@.push(sample)),
        };
        if done {
            (round, None)
        } else {
            (round, Some(accepted))
        }
    }

    /// The position from which both caches are to be cleared, where a draft was not
    /// taken.
    pub fn rollback(&self) -> (position: Option<i32>)
        ensures
            position == if self@.accepted < self@.drafts.len() {
                Some(self@.next_position() as i32)
            } else {
                None
            },
    {
        proof {
            use_type_invariant(self);
        }
        if self.accepted < self.drafts.len() {
            Some(self.position + 1 + self.accepted as i32)
        } else {
            None
        }
    }

    /// How many drafts were taken, where the draft model is to be told.
    pub fn acceptance(&self) -> (accepted: Option<usize>)
        ensures
            accepted == if self@.offered {
                Some(self@.accepted as usize)
            } else {
                None
            },
    {
        if self.offered {
            Some(self.accepted)
        } else {
            None
        }
    }

    /// How many of the drafts come out: their bytes are asked for by
    /// [`MtpRound::end_round`].
    pub fn kept_drafts(&self) -> (count: usize)
        requires
            self@.done,
        ensures
            count == self@.kept().len(),
    {
        proof {
            use_type_invariant(self);
        }
        if self.eog_taken {
            self.accepted - 1
        } else {
            self.accepted
        }
    }

    /// Ends the round: the drafts that were kept come out with their bytes, the last
    /// sample is the next token, and the totals grow by the drafts of the round and
    /// by those that were taken.
    pub fn end_round(self, pieces: Vec<Vec<u8>>) -> (session: MtpSession)
        requires
            self@.done,
            pieces@.len() == self@.kept().len(),
            forall|i: int| 0 <= i < pieces@.len() ==> (#[trigger] pieces@[i])@.len() <= MAX_PIECE,
        ensures
            session@ == (MtpView {
                position: self@.next_position(),
                token: self@.samples.last(),
                token_is_eog: self@.last_is_eog,
                eog_evaluated: self@.eog_taken(),
                emitted: self@.before.emitted.push(self@.before.token) + self@.kept(),
                pieces: self@.before.pieces.push(self@.piece) + piece_views(pieces@),
                sampled: self@.before.sampled + self@.samples,
                proposed: self@.before.proposed + self@.drafts.len(),
                accepted: self@.before.accepted + self@.accepted,
                ..self@.before
            }),
            session@ == self@.ended(piece_views(pieces@)),
    {
        proof {
            use_type_invariant(&self);
        }
        let ghost round = self@;
        let ghost first = round.before.pieces.push(round.piece);
        let ghost views = piece_views(pieces@);
        let mut output = self.output;
        let size: usize = pieces.len();
        assert(first + views.take(0) =~= first);
        for i in 0..size
            invariant
                size == pieces@.len(),
                views == piece_views(pieces@),
                output.holds(first + views.take(i as int)),
                forall|i: int|
                    0 <= i < pieces@.len() ==> (#[trigger] pieces@[i])@.len() <= MAX_PIECE,
        {
            assert((first + views.take(i as int)).push(pieces@[i as int]@) =~= first + views.take(
                i as int + 1,
            ));
            output = output.append(&pieces[i], Ghost(first + views.take(i as int)));
        }
        assert(views.take(size as int) =~= views);
        let kept: u32 = size as u32;
        proof {
            let emitted = round.before.emitted.push(round.before.token) + round.kept();
            if round.eog_taken() {
                assert(round.kept().push(round.samples.last()) =~= round.samples);
            } else {
                assert(round.kept().push(round.samples.last()) =~= round.samples);
            }
            assert(emitted.push(round.samples.last()) =~= round.before.sampled + round.samples);
        }
        MtpSession {
            start: self.start,
            position: self.position + 1 + self.accepted as i32,
            limit: self.limit,
            token: self.next,
            token_is_eog: self.next_is_eog,
            eog_evaluated: self.eog_taken,
            output_tokens: self.output_tokens + kept,
            proposed: self.proposed + self.drafts.len() as u64,
            accepted: self.accepted_before + self.accepted as u64,
            output,
            pieces: Ghost(first + views),
            emitted: Ghost(
                self.before@.emitted.push(self.before@.token) + self@.kept(),
            ),
            sampled: Ghost(self.before@.sampled + self.samples@),
        }
    }
}

/// The bytes of pieces.
pub open spec fn piece_views(pieces: Seq<Vec<u8>>) -> Seq<Seq<u8>> {
    Seq::new(pieces.len(), |i: int| pieces[i]@)
}

/// A generation with a requested output that decodes token by token gives no more
/// tokens than were requested, and exactly so many where nothing ends it before.
pub proof fn law_single_output_stays_in_the_limit(session: DecodeView, max_output_tokens: u32)
    requires
        session.sound(),
        1 <= max_output_tokens,
        session.start + max_output_tokens <= i32::MAX,
        session.limit == last_position(session.start as i32, Some(max_output_tokens)),
    ensures
        session.output_tokens <= max_output_tokens,
        next_of(session.position, session.limit, session.ended, false) is Finish && !session.ended
            ==> session.output_tokens == max_output_tokens,
{
}

/// A generation with a requested output that decodes with drafts never gives more
/// tokens than were requested.
pub proof fn law_output_stays_in_the_limit(session: MtpView, max_output_tokens: u32)
    requires
        session.sound(),
        1 <= max_output_tokens,
        session.start + max_output_tokens <= i32::MAX,
        session.limit == last_position(session.start as i32, Some(max_output_tokens)),
    ensures
        session.emitted.len() <= max_output_tokens,
{
}

/// Checking drafts changes nothing about what is generated: the tokens that came
/// out are the sampled tokens in their order, up to the one that was sampled last.
pub proof fn law_drafts_do_not_change_the_output(session: MtpView)
    requires
        session.sound(),
    ensures
        session.emitted == session.sampled.drop_last(),
        session.token == session.sampled.last(),
{
    assert(session.emitted.push(session.token).drop_last() =~= session.emitted);
}

/// A round evaluates no position behind the last one that the context has room
/// for: the token and all its drafts lie at or before the limit.
pub proof fn law_round_stays_in_the_context(round: RoundView)
    requires
        round.sound(),
    ensures
        round.before.position + round.drafts.len() <= round.before.limit,
        round.next_position() <= round.before.limit + 1,
{
}

/// The counts of a generation fit a token count: the prompt and the output lie in
/// positions up to the limit.
pub proof fn law_usage_fits(session: MtpView, usage: TokenUsage)
    requires
        session.sound(),
        session.start <= i32::MAX,
        session.limit < i32::MAX,
        usage.input_tokens == session.start,
        usage.output_tokens == session.emitted.len(),
    ensures
        usage.fits(),
{
}

/// Bytes that begin a UTF-8 text without a byte order mark.
pub open spec fn begins_text(bytes: Seq<u8>) -> bool {
    &&& exists|rest: Seq<u8>| valid_utf8(#[trigger] (bytes + rest))
    &&& !(seq![0xEFu8, 0xBBu8, 0xBFu8].is_prefix_of(bytes))
}

/// The text of all the whole characters that bytes begin with.
pub open spec fn whole_characters(bytes: Seq<u8>, text: Seq<char>) -> bool {
    &&& encode_utf8(text).is_prefix_of(bytes)
    &&& forall|other: Seq<char>| #[trigger]
        encode_utf8(other).is_prefix_of(bytes) ==> encode_utf8(other).len() <= encode_utf8(
            text,
        ).len()
}

/// What it means to decode UTF-8 piece by piece: where the bytes so far begin a text,
/// the text so far and that of the next piece are together the text of all the whole
/// characters.
pub open spec fn decodes_in_turn(fed: Seq<u8>, bytes: Seq<u8>) -> bool {
    begins_text(fed + bytes) ==> forall|before: Seq<char>| #[trigger]
        whole_characters(fed, before) ==> whole_characters(
            fed + bytes,
            before + decoded_text(fed, bytes),
        )
}

proof fn lemma_bytes_of_pieces(pieces: Seq<Seq<u8>>)
    ensures
        bytes_of_pieces(pieces) == pieces.flatten(),
    decreases pieces.len(),
{
    if pieces.len() == 0 {
        assert(pieces.flatten() =~= Seq::<u8>::empty());
    } else {
        lemma_bytes_of_pieces(pieces.drop_last());
        pieces.lemma_flatten_and_flatten_alt_are_equivalent();
        pieces.drop_last().lemma_flatten_and_flatten_alt_are_equivalent();
    }
}

proof fn lemma_whole_characters(pieces: Seq<Seq<u8>>)
    requires
        begins_text(pieces.flatten()),
        forall|i: int|
            0 <= i < pieces.len() ==> decodes_in_turn(
                (#[trigger] pieces.take(i)).flatten(),
                pieces[i],
            ),
    ensures
        whole_characters(pieces.flatten(), text_of_pieces(pieces)),
    decreases pieces.len(),
{
    lemma_bytes_of_pieces(pieces);
    if pieces.len() == 0 {
        assert(encode_utf8(Seq::<char>::empty()) =~= Seq::<u8>::empty());
    } else {
        let front = pieces.drop_last();
        let fed = front.flatten();
        lemma_bytes_of_pieces(front);
        let last = pieces.last();
        assert(pieces.flatten() =~= fed + last);
        assert(begins_text(fed)) by {
            let rest = choose|rest: Seq<u8>| valid_utf8(#[trigger] (pieces.flatten() + rest));
            assert(fed + (last + rest) =~= pieces.flatten() + rest);
            if seq![0xEFu8, 0xBBu8, 0xBFu8].is_prefix_of(fed) {
                assert(pieces.flatten().subrange(0, 3) =~= fed.subrange(0, 3));
            }
        }
        assert forall|i: int| 0 <= i < front.len() implies decodes_in_turn(
            (#[trigger] front.take(i)).flatten(),
            front[i],
        ) by {
            assert(front.take(i) =~= pieces.take(i));
        }
        lemma_whole_characters(front);
        assert(pieces.take(pieces.len() - 1) =~= front);
        assert(decodes_in_turn(fed, last));
        assert(whole_characters(fed, text_of_pieces(front)));
    }
}

/// No byte of a generated token is lost: where the bytes of all the pieces, in their
/// order, are a UTF-8 text without a byte order mark, that text is what is generated.
/// This holds of every decoder that decodes piece by piece.
pub proof fn law_text_keeps_every_byte(pieces: Seq<Seq<u8>>)
    ensures
        valid_utf8(pieces.flatten()) && !(seq![0xEFu8, 0xBBu8, 0xBFu8].is_prefix_of(
            pieces.flatten(),
        )) && (forall|i: int|
            0 <= i < pieces.len() ==> decodes_in_turn(
                (#[trigger] pieces.take(i)).flatten(),
                pieces[i],
            )) ==> encode_utf8(text_of_pieces(pieces)) == pieces.flatten(),
{
    let bytes = pieces.flatten();
    if valid_utf8(bytes) && !(seq![0xEFu8, 0xBBu8, 0xBFu8].is_prefix_of(bytes)) && (forall|i: int|
        0 <= i < pieces.len() ==> decodes_in_turn(
            (#[trigger] pieces.take(i)).flatten(),
            pieces[i],
        )) {
        assert(bytes + Seq::<u8>::empty() =~= bytes);
        lemma_whole_characters(pieces);
        let whole = vstd::utf8::decode_utf8(bytes);
        vstd::utf8::decode_utf8_encode_utf8(bytes);
        assert(encode_utf8(whole).is_prefix_of(bytes)) by {
            assert(bytes.subrange(0, bytes.len() as int) =~= bytes);
        }
        let text = encode_utf8(text_of_pieces(pieces));
        assert(text.len() == bytes.len());
        assert(text =~= bytes.subrange(0, text.len() as int));
        assert(text =~= bytes);
    }
}

/// What is decoded comes one behind the other, and nothing else comes: the text of
/// pieces with more pieces behind them is the text of the pieces and what the decoder,
/// fed with all their bytes, gives for each of the others.
pub proof fn law_text_grows_by_what_is_decoded(pieces: Seq<Seq<u8>>, piece: Seq<u8>)
    ensures
        text_of_pieces(Seq::empty()) == Seq::<char>::empty(),
        text_of_pieces(pieces.push(piece)) == text_of_pieces(pieces) + decoded_text(
            pieces.flatten(),
            piece,
        ),
{
    lemma_bytes_of_pieces(pieces);
    assert(pieces.push(piece).drop_last() =~= pieces);
}

/// Every sampled token is taken, in its order, until one ends the generation: each
/// adds its bytes, a position and one to the count, and the one that ends it adds
/// nothing. Nothing is taken back.
pub proof fn law_every_token_is_taken(
    session: DecodeView,
    pieces: Seq<Seq<u8>>,
    last: Seq<u8>,
)
    requires
        session.pieces.len() == session.output_tokens,
    ensures
        ({
            let after = session.after_pieces(pieces);
            &&& after.pieces == session.pieces + pieces
            &&& after.output_tokens == session.output_tokens + pieces.len()
            &&& after.position == session.position + pieces.len()
            &&& after.ended == session.ended
            &&& (after.start, after.limit) == (session.start, session.limit)
            &&& after.after(true, last) == (DecodeView { ended: true, ..after })
        }),
    decreases pieces.len(),
{
    if pieces.len() == 0 {
        assert(session.pieces + pieces =~= session.pieces);
    } else {
        law_every_token_is_taken(session, pieces.drop_last(), last);
        assert(session.pieces + pieces =~= (session.pieces + pieces.drop_last()).push(
            pieces.last(),
        ));
    }
}

/// A generation goes on exactly while it has not ended, has a position left and is not
/// cancelled; a cancellation stops every generation that would go on. With drafts it is
/// the same, but a cancellation is also seen where the next token ends the generation.
pub proof fn law_cancellation_stops_a_generation(position: int, limit: int, ended: bool)
    ensures
        (next_of(position, limit, ended, false) is GoOn) == (!ended && position <= limit),
        next_of(position, limit, ended, true) == if !ended && position <= limit {
            DecodeNext::Cancelled
        } else {
            DecodeNext::Finish
        },
        !(next_of(position, limit, ended, false) is Cancelled),
        (mtp_next_of(position, limit, ended, false) is GoOn) == (!ended && position <= limit),
        (mtp_next_of(position, limit, ended, true) is Cancelled) == (position <= limit),
        !(mtp_next_of(position, limit, ended, true) is GoOn),
        !(mtp_next_of(position, limit, ended, false) is Cancelled),
{
}

/// A round puts out its token and the drafts that were sampled again, in that order,
/// with their bytes: the tokens that come out are the next ones of all that were
/// sampled, and no byte of theirs is lost.
pub proof fn law_round_puts_out_what_was_sampled(round: RoundView, pieces: Seq<Seq<u8>>)
    requires
        round.sound(),
        round.done,
        pieces.len() == round.kept().len(),
    ensures
        ({
            let after = round.ended(pieces);
            let before = round.before;
            &&& after.pieces.flatten() == before.pieces.flatten() + round.piece + pieces.flatten()
            &&& after.emitted == after.sampled.drop_last()
            &&& after.token == after.sampled.last()
            &&& after.sampled == before.sampled + round.samples
            &&& after.emitted.len() == after.pieces.len()
            &&& before.emitted.push(before.token).is_prefix_of(after.emitted)
            &&& after.position <= before.limit + 1
            &&& after.position == before.position + 1 + round.accepted
            &&& after.token_is_eog == round.last_is_eog
            &&& after.proposed == before.proposed + round.drafts.len()
            &&& after.accepted == before.accepted + round.accepted
            &&& (after.start, after.limit) == (before.start, before.limit)
        }),
{
    let after = round.ended(pieces);
    let before = round.before;
    assert(after.emitted =~= after.sampled.drop_last());
    assert(after.emitted.subrange(0, before.emitted.len() as int + 1) =~= before.emitted.push(
        before.token,
    ));
    let first = before.pieces.push(round.piece);
    lemma_flatten_append(before.pieces, seq![round.piece]);
    assert(before.pieces + seq![round.piece] =~= first);
    lemma_flatten_append(first, pieces);
    let lone = seq![round.piece];
    lone.lemma_flatten_one_element();
}

proof fn lemma_flatten_append(first: Seq<Seq<u8>>, second: Seq<Seq<u8>>)
    ensures
        (first + second).flatten() == first.flatten() + second.flatten(),
    decreases second.len(),
{
    lemma_bytes_of_pieces(first + second);
    lemma_bytes_of_pieces(first);
    lemma_bytes_of_pieces(second);
    if second.len() == 0 {
        assert(first + second =~= first);
        assert(first.flatten() + second.flatten() =~= first.flatten());
    } else {
        assert((first + second).drop_last() =~= first + second.drop_last());
        lemma_flatten_append(first, second.drop_last());
        lemma_bytes_of_pieces(second.drop_last());
        lemma_bytes_of_pieces(first + second.drop_last());
    }
}

/// Drafts are taken only as far as they are what was sampled: a sample that differs
/// from its draft ends the round, and so does one that ends the generation.
pub proof fn law_drafts_are_taken_while_they_are_sampled(
    round: RoundView,
    sample: i32,
    is_eog: bool,
)
    requires
        round.sound(),
        !round.done,
    ensures
        ({
            let after = round.after(sample, is_eog);
            let drafted = round.accepted < round.drafts.len() && round.drafts[round.accepted as int]
                == sample;
            &&& after.sound()
            &&& after.samples == round.samples.push(sample)
            &&& after.accepted == round.accepted + if drafted {
                1int
            } else {
                0int
            }
            &&& after.done == (!drafted || is_eog)
            &&& after.last_is_eog == is_eog
            &&& after.before == round.before
            &&& after.drafts == round.drafts
        }),
{
}

/// A round begins with nothing sampled and with the first of the drafts, in their
/// order: all of them where they fit, and otherwise as many as fit.
pub proof fn law_round_begins_with_the_drafts_that_fit(
    session: MtpView,
    piece: Seq<u8>,
    drafts: Seq<i32>,
)
    requires
        session.position <= session.limit,
    ensures
        ({
            let round = session.begun(piece, drafts);
            let room = session.limit - session.position;
            &&& round.before == session
            &&& round.piece == piece
            &&& round.drafts.is_prefix_of(drafts)
            &&& drafts.len() <= room ==> round.drafts == drafts
            &&& drafts.len() > room ==> round.drafts.len() == room
            &&& round.offered == (drafts.len() > 0)
            &&& round.accepted == 0 && round.samples.len() == 0 && !round.done
        }),
{
    assert(drafts.take(drafts.len() as int) =~= drafts);
}

} // verus!
