//! Errors as messages, and context put in front of them.

use crate::scalar::Scalar;
use crate::text::{concat2, concat3, copy_of, hex_digits, hexadecimal};
use vstd::prelude::*;
use vstd::string::{to_string_from_display_ensures, StringExecFns};

verus! {

/// A part of a message: fixed text, or a number that is written out only when
/// the message is shown.
#[derive(Debug)]
pub enum Piece {
    Text(String),
    Number(Scalar),
}

/// A [`Piece`] by its contents.
pub enum PieceView {
    Text(Seq<char>),
    Number(Scalar),
}

impl View for Piece {
    type V = PieceView;

    open spec fn view(&self) -> PieceView {
        match self {
            Piece::Text(s) => PieceView::Text(s@),
            Piece::Number(n) => PieceView::Number(*n),
        }
    }
}

/// The contents of a list of pieces.
pub open spec fn piece_views(pieces: Seq<Piece>) -> Seq<PieceView> {
    pieces.map_values(|p: Piece| p@)
}

/// What went wrong.
#[derive(Debug)]
pub enum CoreError {
    /// A free-form message.
    Msg(String),
    /// A message that quotes numbers.
    Numeric(Vec<Piece>),
    /// The text of an I/O error.
    Io(String),
    /// The text of a JSON error.
    Json(String),
}

impl CoreError {
    /// The message, piece by piece.
    pub open spec fn shown(self) -> Seq<PieceView> {
        match self {
            CoreError::Msg(text) => seq![PieceView::Text(text@)],
            CoreError::Numeric(pieces) => piece_views(pieces@),
            CoreError::Io(text) => seq![PieceView::Text("IO error: "@ + text@)],
            CoreError::Json(text) => seq![PieceView::Text("JSON error: "@ + text@)],
        }
    }

    /// The error is the plain message `text`.
    pub open spec fn says(self, text: Seq<char>) -> bool {
        self is Msg && self->Msg_0@ == text
    }

    /// The error is the message of these pieces: a plain message where it is one text,
    /// else one that quotes numbers.
    pub open spec fn tells(self, pieces: Seq<PieceView>) -> bool {
        &&& self.shown() == pieces
        &&& if pieces.len() == 1 && pieces[0] is Text {
            self is Msg
        } else {
            self is Numeric
        }
    }

    /// The message, piece by piece, for a caller that writes numbers out itself.
    pub fn pieces(&self) -> (result: Vec<Piece>)
        ensures
            piece_views(result@) == self.shown(),
    {
        match self {
            CoreError::Msg(text) => text_pieces(copy_of(text.as_str())),
            CoreError::Numeric(pieces) => copy_pieces(pieces),
            CoreError::Io(text) => text_pieces(concat2("IO error: ", text.as_str())),
            CoreError::Json(text) => text_pieces(concat2("JSON error: ", text.as_str())),
        }
    }

    /// The message as one text, with numbers as the hexadecimal patterns of
    /// their bits.
    pub fn to_string(&self) -> (result: String)
        ensures
            result@ == joined(self.shown()),
    {
        let pieces = self.pieces();
        let mut result = String::new();
        let mut i: usize = 0;
        proof {
            assert(piece_views(pieces@.take(0)) == Seq::<PieceView>::empty());
        }
        while i < pieces.len()
            invariant
                i <= pieces@.len(),
                result@ == joined(piece_views(pieces@.take(i as int))),
            decreases pieces@.len() - i,
        {
            let ghost before = piece_views(pieces@.take(i as int));
            proof {
                assert(piece_views(pieces@.take(i + 1)) == before.push(pieces@[i as int]@));
                assert(before.push(pieces@[i as int]@).drop_last() == before);
            }
            match &pieces[i] {
                Piece::Text(text) => result.append(text.as_str()),
                Piece::Number(number) => {
                    let digits = hexadecimal(number.bits, 16);
                    let written = concat2("0x", digits.as_str());
                    result.append(written.as_str());
                },
            }
            i += 1;
        }
        proof {
            assert(pieces@.take(pieces@.len() as int) == pieces@);
        }
        result
    }
}

/// Pieces one after the other, with numbers as the patterns of their bits.
pub open spec fn joined(pieces: Seq<PieceView>) -> Seq<char>
    decreases pieces.len(),
{
    if pieces.len() == 0 {
        Seq::<char>::empty()
    } else {
        joined(pieces.drop_last()) + written(pieces.last())
    }
}

/// One piece, with a number as the pattern of its bits.
pub open spec fn written(piece: PieceView) -> Seq<char> {
    match piece {
        PieceView::Text(text) => text,
        PieceView::Number(number) => "0x"@ + hex_digits(number.bits as nat, 16),
    }
}

fn text_pieces(text: String) -> (result: Vec<Piece>)
    ensures
        piece_views(result@) == seq![PieceView::Text(text@)],
{
    let ghost view = text@;
    let mut result: Vec<Piece> = Vec::new();
    result.push(Piece::Text(text));
    proof {
        assert(piece_views(result@) == seq![PieceView::Text(view)]);
    }
    result
}

fn copy_pieces(pieces: &Vec<Piece>) -> (result: Vec<Piece>)
    ensures
        piece_views(result@) == piece_views(pieces@),
{
    let mut result: Vec<Piece> = Vec::new();
    let mut i: usize = 0;
    while i < pieces.len()
        invariant
            i <= pieces@.len(),
            piece_views(result@) == piece_views(pieces@.take(i as int)),
        decreases pieces@.len() - i,
    {
        let copy = match &pieces[i] {
            Piece::Text(text) => Piece::Text(copy_of(text.as_str())),
            Piece::Number(number) => Piece::Number(*number),
        };
        let ghost before = piece_views(result@);
        result.push(copy);
        proof {
            assert(piece_views(result@) == before.push(copy@));
            assert(piece_views(pieces@.take(i + 1)) == piece_views(pieces@.take(i as int)).push(
                pieces@[i as int]@,
            ));
        }
        i += 1;
    }
    proof {
        assert(pieces@.take(pieces@.len() as int) == pieces@);
    }
    result
}

/// The error with the given message.
pub fn msg_error(message: &str) -> (result: CoreError)
    ensures
        result.says(message@),
{
    CoreError::Msg(copy_of(message))
}

/// The error whose message is `before` followed by a number.
pub fn number_error(before: String, number: Scalar) -> (result: CoreError)
    ensures
        result.tells(seq![PieceView::Text(before@), PieceView::Number(number)]),
{
    let ghost view = before@;
    let mut pieces: Vec<Piece> = Vec::new();
    pieces.push(Piece::Text(before));
    pieces.push(Piece::Number(number));
    proof {
        assert(piece_views(pieces@) == seq![PieceView::Text(view), PieceView::Number(number)]);
    }
    CoreError::Numeric(pieces)
}

/// The error whose message is `before`, a number, `between`, a second number and
/// `after`.
pub fn two_number_error(
    before: String,
    first: Scalar,
    between: &str,
    second: Scalar,
    after: &str,
) -> (result: CoreError)
    ensures
        result.tells(seq![
            PieceView::Text(before@),
            PieceView::Number(first),
            PieceView::Text(between@),
            PieceView::Number(second),
            PieceView::Text(after@),
        ]),
{
    let ghost view = before@;
    let mut pieces: Vec<Piece> = Vec::new();
    pieces.push(Piece::Text(before));
    pieces.push(Piece::Number(first));
    pieces.push(Piece::Text(copy_of(between)));
    pieces.push(Piece::Number(second));
    pieces.push(Piece::Text(copy_of(after)));
    proof {
        assert(piece_views(pieces@) == seq![
            PieceView::Text(view),
            PieceView::Number(first),
            PieceView::Text(between@),
            PieceView::Number(second),
            PieceView::Text(after@),
        ]);
    }
    CoreError::Numeric(pieces)
}

/// Puts a context in front of any error that can be displayed.
pub trait ErrorContext<T> {
    /// Turns an error into the message `"{context}: {error}"`.
    fn context(self, context: &str) -> Result<T, CoreError>;
}

impl<T, E: core::fmt::Display> ErrorContext<T> for Result<T, E> {
    fn context(self, context: &str) -> (result: Result<T, CoreError>)
        ensures
            self matches Ok(value) ==> result == Ok::<T, CoreError>(value),
            self matches Err(error) ==> result is Err && (exists|display: String|
                #[trigger] to_string_from_display_ensures::<E>(&error, display) && result->Err_0.says(
                    context@ + ": "@ + display@,
                )),
    {
        match self {
            Ok(value) => Ok(value),
            Err(error) => {
                let display = error.to_string();
                let message = concat3(context, ": ", display.as_str());
                let wrapped = CoreError::Msg(message);
                proof {
                    assert(to_string_from_display_ensures::<E>(&error, display));
                    assert(wrapped.says(context@ + ": "@ + display@));
                }
                Err(wrapped)
            },
        }
    }
}

/// A message is the text of its pieces, one after the other, and words stand in it as they
/// are.
pub proof fn messages_are_their_pieces(a: Seq<PieceView>, b: Seq<PieceView>, text: Seq<char>)
    ensures
        joined(a + b) == joined(a) + joined(b),
        joined(seq![PieceView::Text(text)]) == text,
    decreases b.len(),
{
    let one = seq![PieceView::Text(text)];
    assert(one.drop_last() =~= Seq::<PieceView>::empty());
    assert(joined(Seq::<PieceView>::empty()) =~= Seq::<char>::empty());
    assert(joined(one) =~= text);
    if b.len() == 0 {
        assert(a + b =~= a);
        assert(joined(a) + joined(b) =~= joined(a));
    } else {
        messages_are_their_pieces(a, b.drop_last(), text);
        assert((a + b).drop_last() =~= a + b.drop_last());
        assert(joined(a + b) =~= joined(a) + joined(b));
    }
}

/// Words by themselves make an error of words; as soon as a number stands in them, the
/// error keeps the number.
pub proof fn errors_keep_their_numbers(e: CoreError, text: Seq<char>, value: Scalar)
    ensures
        e.tells(seq![PieceView::Text(text)]) ==> e.says(text),
        e.tells(seq![PieceView::Text(text), PieceView::Number(value)]) ==> e is Numeric
            && e.shown().len() == 2 && e.shown()[1] == PieceView::Number(value),
{
    if e.tells(seq![PieceView::Text(text)]) {
        assert(e.shown()[0] == seq![PieceView::Text(text)][0]);
    }
}

/// An error of words says its words, and no others.
pub proof fn errors_of_words_say_them(e: CoreError, text: Seq<char>, other: Seq<char>)
    requires
        e.says(text),
    ensures
        e is Msg && e->Msg_0@ == text,
        e.shown() == seq![PieceView::Text(text)],
        e.says(other) ==> other == text,
{
}

} // verus!
