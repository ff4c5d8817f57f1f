//! The spellings of the language: the text of each token that is always
//! written the same way, and the symbol of each operator. The tokenizer, the
//! grammar and the literal reader are held to these tables.
use vstd::prelude::*;

use crate::ast::{BinOp, Block, Repr, UnOp};
use crate::token::Token;

verus! {

/// The text of a token that is always written the same way; names,
/// arguments, numbers and strings have none.
pub open spec fn spelling(t: Token) -> Option<Seq<u8>> {
    match t {
        Token::Costumes => Some(seq!['c' as u8, 'o' as u8, 's' as u8, 't' as u8, 'u' as u8, 'm' as u8, 'e' as u8, 's' as u8]),
        Token::Sounds => Some(seq!['s' as u8, 'o' as u8, 'u' as u8, 'n' as u8, 'd' as u8, 's' as u8]),
        Token::Var => Some(seq!['v' as u8, 'a' as u8, 'r' as u8]),
        Token::List => Some(seq!['l' as u8, 'i' as u8, 's' as u8, 't' as u8]),
        Token::Let => Some(seq!['l' as u8, 'e' as u8, 't' as u8]),
        Token::Struct => Some(seq!['s' as u8, 't' as u8, 'r' as u8, 'u' as u8, 'c' as u8, 't' as u8]),
        Token::Enum => Some(seq!['e' as u8, 'n' as u8, 'u' as u8, 'm' as u8]),
        Token::Function => Some(seq!['f' as u8, 'u' as u8, 'n' as u8, 'c' as u8, 't' as u8, 'i' as u8, 'o' as u8, 'n' as u8]),
        Token::Nowarp => Some(seq!['n' as u8, 'o' as u8, 'w' as u8, 'a' as u8, 'r' as u8, 'p' as u8]),
        Token::Return => Some(seq!['r' as u8, 'e' as u8, 't' as u8, 'u' as u8, 'r' as u8, 'n' as u8]),
        Token::OnFlag => Some(seq!['o' as u8, 'n' as u8, 'f' as u8, 'l' as u8, 'a' as u8, 'g' as u8]),
        Token::OnClick => Some(seq!['o' as u8, 'n' as u8, 'c' as u8, 'l' as u8, 'i' as u8, 'c' as u8, 'k' as u8]),
        Token::OnClone => Some(seq!['o' as u8, 'n' as u8, 'c' as u8, 'l' as u8, 'o' as u8, 'n' as u8, 'e' as u8]),
        Token::OnKey => Some(seq!['o' as u8, 'n' as u8, 'k' as u8, 'e' as u8, 'y' as u8]),
        Token::On => Some(seq!['o' as u8, 'n' as u8]),
        Token::OnBackdrop => Some(seq!['o' as u8, 'n' as u8, 'b' as u8, 'a' as u8, 'c' as u8, 'k' as u8, 'd' as u8, 'r' as u8, 'o' as u8, 'p' as u8]),
        Token::If => Some(seq!['i' as u8, 'f' as u8]),
        Token::Else => Some(seq!['e' as u8, 'l' as u8, 's' as u8, 'e' as u8]),
        Token::While => Some(seq!['w' as u8, 'h' as u8, 'i' as u8, 'l' as u8, 'e' as u8]),
        Token::Repeat => Some(seq!['r' as u8, 'e' as u8, 'p' as u8, 'e' as u8, 'a' as u8, 't' as u8]),
        Token::Forever => Some(seq!['f' as u8, 'o' as u8, 'r' as u8, 'e' as u8, 'v' as u8, 'e' as u8, 'r' as u8]),
        Token::Delete => Some(seq!['d' as u8, 'e' as u8, 'l' as u8, 'e' as u8, 't' as u8, 'e' as u8]),
        Token::Insert => Some(seq!['i' as u8, 'n' as u8, 's' as u8, 'e' as u8, 'r' as u8, 't' as u8]),
        Token::At => Some(seq!['a' as u8, 't' as u8]),
        Token::To => Some(seq!['t' as u8, 'o' as u8]),
        Token::Show => Some(seq!['s' as u8, 'h' as u8, 'o' as u8, 'w' as u8]),
        Token::Hide => Some(seq!['h' as u8, 'i' as u8, 'd' as u8, 'e' as u8]),
        Token::True => Some(seq!['t' as u8, 'r' as u8, 'u' as u8, 'e' as u8]),
        Token::False => Some(seq!['f' as u8, 'a' as u8, 'l' as u8, 's' as u8, 'e' as u8]),
        Token::Div => Some(seq!['d' as u8, 'i' as u8, 'v' as u8]),
        Token::In => Some(seq!['i' as u8, 'n' as u8]),
        Token::Round => Some(seq!['r' as u8, 'o' as u8, 'u' as u8, 'n' as u8, 'd' as u8]),
        Token::Abs => Some(seq!['a' as u8, 'b' as u8, 's' as u8]),
        Token::Floor => Some(seq!['f' as u8, 'l' as u8, 'o' as u8, 'o' as u8, 'r' as u8]),
        Token::Ceil => Some(seq!['c' as u8, 'e' as u8, 'i' as u8, 'l' as u8]),
        Token::Sqrt => Some(seq!['s' as u8, 'q' as u8, 'r' as u8, 't' as u8]),
        Token::Sin => Some(seq!['s' as u8, 'i' as u8, 'n' as u8]),
        Token::Cos => Some(seq!['c' as u8, 'o' as u8, 's' as u8]),
        Token::Tan => Some(seq!['t' as u8, 'a' as u8, 'n' as u8]),
        Token::Asin => Some(seq!['a' as u8, 's' as u8, 'i' as u8, 'n' as u8]),
        Token::Acos => Some(seq!['a' as u8, 'c' as u8, 'o' as u8, 's' as u8]),
        Token::Atan => Some(seq!['a' as u8, 't' as u8, 'a' as u8, 'n' as u8]),
        Token::Ln => Some(seq!['l' as u8, 'n' as u8]),
        Token::Log => Some(seq!['l' as u8, 'o' as u8, 'g' as u8]),
        Token::Antiln => Some(seq!['a' as u8, 'n' as u8, 't' as u8, 'i' as u8, 'l' as u8, 'n' as u8]),
        Token::Antilog => Some(seq!['a' as u8, 'n' as u8, 't' as u8, 'i' as u8, 'l' as u8, 'o' as u8, 'g' as u8]),
        Token::Length => Some(seq!['l' as u8, 'e' as u8, 'n' as u8, 'g' as u8, 't' as u8, 'h' as u8]),
        Token::LParen => Some(seq!['(' as u8]),
        Token::RParen => Some(seq![')' as u8]),
        Token::LBrace => Some(seq!['{' as u8]),
        Token::RBrace => Some(seq!['}' as u8]),
        Token::LBracket => Some(seq!['[' as u8]),
        Token::RBracket => Some(seq![']' as u8]),
        Token::Comma => Some(seq![',' as u8]),
        Token::Semi => Some(seq![';' as u8]),
        Token::Colon => Some(seq![':' as u8]),
        Token::Dot => Some(seq!['.' as u8]),
        Token::Plus => Some(seq!['+' as u8]),
        Token::Minus => Some(seq!['-' as u8]),
        Token::Star => Some(seq!['*' as u8]),
        Token::Slash => Some(seq!['/' as u8]),
        Token::Percent => Some(seq!['%' as u8]),
        Token::Amp => Some(seq!['&' as u8]),
        Token::AmpAmp => Some(seq!['&' as u8, '&' as u8]),
        Token::PipePipe => Some(seq!['|' as u8, '|' as u8]),
        Token::Bang => Some(seq!['!' as u8]),
        Token::Eq => Some(seq!['=' as u8, '=' as u8]),
        Token::Ne => Some(seq!['!' as u8, '=' as u8]),
        Token::Lt => Some(seq!['<' as u8]),
        Token::Le => Some(seq!['<' as u8, '=' as u8]),
        Token::Gt => Some(seq!['>' as u8]),
        Token::Ge => Some(seq!['>' as u8, '=' as u8]),
        Token::Assign => Some(seq!['=' as u8]),
        Token::PlusAssign => Some(seq!['+' as u8, '=' as u8]),
        Token::MinusAssign => Some(seq!['-' as u8, '=' as u8]),
        Token::StarAssign => Some(seq!['*' as u8, '=' as u8]),
        Token::SlashAssign => Some(seq!['/' as u8, '=' as u8]),
        Token::PercentAssign => Some(seq!['%' as u8, '=' as u8]),
        Token::AmpAssign => Some(seq!['&' as u8, '=' as u8]),
        Token::DivAssign => Some(seq!['d' as u8, 'i' as u8, 'v' as u8, '=' as u8]),
        Token::PlusPlus => Some(seq!['+' as u8, '+' as u8]),
        Token::MinusMinus => Some(seq!['-' as u8, '-' as u8]),
        Token::Define => Some(seq!['%' as u8, 'd' as u8, 'e' as u8, 'f' as u8, 'i' as u8, 'n' as u8, 'e' as u8]),
        Token::Undef => Some(seq!['%' as u8, 'u' as u8, 'n' as u8, 'd' as u8, 'e' as u8, 'f' as u8]),
        _ => None,
    }
}

/// The symbol of a binary operator, as written in a source.
pub open spec fn binop_symbol(op: BinOp) -> Seq<u8> {
    match op {
        BinOp::Add => seq!['+' as u8],
        BinOp::Sub => seq!['-' as u8],
        BinOp::Mul => seq!['*' as u8],
        BinOp::Div => seq!['/' as u8],
        BinOp::FloorDiv => seq!['d' as u8, 'i' as u8, 'v' as u8],
        BinOp::Mod => seq!['%' as u8],
        BinOp::Join => seq!['&' as u8],
        BinOp::Eq => seq!['=' as u8, '=' as u8],
        BinOp::Ne => seq!['!' as u8, '=' as u8],
        BinOp::Lt => seq!['<' as u8],
        BinOp::Le => seq!['<' as u8, '=' as u8],
        BinOp::Gt => seq!['>' as u8],
        BinOp::Ge => seq!['>' as u8, '=' as u8],
        BinOp::And => seq!['&' as u8, '&' as u8],
        BinOp::Or => seq!['|' as u8, '|' as u8],
        BinOp::In => seq!['i' as u8, 'n' as u8],
    }
}

/// The precedence level of a binary operator: 1 binds tightest, 6 loosest.
pub open spec fn binop_level(op: BinOp) -> u8 {
    match op {
        BinOp::Add => 2,
        BinOp::Sub => 2,
        BinOp::Mul => 1,
        BinOp::Div => 1,
        BinOp::FloorDiv => 1,
        BinOp::Mod => 1,
        BinOp::Join => 3,
        BinOp::Eq => 4,
        BinOp::Ne => 4,
        BinOp::Lt => 4,
        BinOp::Le => 4,
        BinOp::Gt => 4,
        BinOp::Ge => 4,
        BinOp::And => 5,
        BinOp::Or => 6,
        BinOp::In => 4,
    }
}

/// The symbol of a prefix operator.
pub open spec fn unop_symbol(op: UnOp) -> Seq<u8> {
    match op {
        UnOp::Not => seq!['!' as u8],
        UnOp::Minus => seq!['-' as u8],
        UnOp::Round => seq!['r' as u8, 'o' as u8, 'u' as u8, 'n' as u8, 'd' as u8],
        UnOp::Abs => seq!['a' as u8, 'b' as u8, 's' as u8],
        UnOp::Floor => seq!['f' as u8, 'l' as u8, 'o' as u8, 'o' as u8, 'r' as u8],
        UnOp::Ceil => seq!['c' as u8, 'e' as u8, 'i' as u8, 'l' as u8],
        UnOp::Sqrt => seq!['s' as u8, 'q' as u8, 'r' as u8, 't' as u8],
        UnOp::Sin => seq!['s' as u8, 'i' as u8, 'n' as u8],
        UnOp::Cos => seq!['c' as u8, 'o' as u8, 's' as u8],
        UnOp::Tan => seq!['t' as u8, 'a' as u8, 'n' as u8],
        UnOp::Asin => seq!['a' as u8, 's' as u8, 'i' as u8, 'n' as u8],
        UnOp::Acos => seq!['a' as u8, 'c' as u8, 'o' as u8, 's' as u8],
        UnOp::Atan => seq!['a' as u8, 't' as u8, 'a' as u8, 'n' as u8],
        UnOp::Ln => seq!['l' as u8, 'n' as u8],
        UnOp::Log => seq!['l' as u8, 'o' as u8, 'g' as u8],
        UnOp::Antiln => seq!['a' as u8, 'n' as u8, 't' as u8, 'i' as u8, 'l' as u8, 'n' as u8],
        UnOp::Antilog => seq!['a' as u8, 'n' as u8, 't' as u8, 'i' as u8, 'l' as u8, 'o' as u8, 'g' as u8],
        UnOp::Length => seq!['l' as u8, 'e' as u8, 'n' as u8, 'g' as u8, 't' as u8, 'h' as u8],
    }
}

/// The digits of base 16 in order, lower case.
pub open spec fn hex_lower() -> Seq<u8> {
    seq!['0' as u8, '1' as u8, '2' as u8, '3' as u8, '4' as u8, '5' as u8, '6' as u8, '7' as u8, '8' as u8, '9' as u8, 'a' as u8, 'b' as u8, 'c' as u8, 'd' as u8, 'e' as u8, 'f' as u8]
}

/// The digits of base 16 in order, upper case.
pub open spec fn hex_upper() -> Seq<u8> {
    seq!['0' as u8, '1' as u8, '2' as u8, '3' as u8, '4' as u8, '5' as u8, '6' as u8, '7' as u8, '8' as u8, '9' as u8, 'A' as u8, 'B' as u8, 'C' as u8, 'D' as u8, 'E' as u8, 'F' as u8]
}

/// The name of a block of the standard library, as written in a source.
pub open spec fn block_spelling(b: Block) -> Seq<u8> {
    match b {
        Block::Say => seq!['s' as u8, 'a' as u8, 'y' as u8],
        Block::Think => seq!['t' as u8, 'h' as u8, 'i' as u8, 'n' as u8, 'k' as u8],
        Block::Wait => seq!['w' as u8, 'a' as u8, 'i' as u8, 't' as u8],
        Block::Broadcast => seq!['b' as u8, 'r' as u8, 'o' as u8, 'a' as u8, 'd' as u8, 'c' as u8, 'a' as u8, 's' as u8, 't' as u8],
        Block::BroadcastAndWait => seq!['b' as u8, 'r' as u8, 'o' as u8, 'a' as u8, 'd' as u8, 'c' as u8, 'a' as u8, 's' as u8, 't' as u8, '_' as u8, 'a' as u8, 'n' as u8, 'd' as u8, '_' as u8, 'w' as u8, 'a' as u8, 'i' as u8, 't' as u8],
        Block::StopAll => seq!['s' as u8, 't' as u8, 'o' as u8, 'p' as u8, '_' as u8, 'a' as u8, 'l' as u8, 'l' as u8],
        Block::StopThisScript => seq!['s' as u8, 't' as u8, 'o' as u8, 'p' as u8, '_' as u8, 't' as u8, 'h' as u8, 'i' as u8, 's' as u8, '_' as u8, 's' as u8, 'c' as u8, 'r' as u8, 'i' as u8, 'p' as u8, 't' as u8],
        Block::StopOtherScripts => seq!['s' as u8, 't' as u8, 'o' as u8, 'p' as u8, '_' as u8, 'o' as u8, 't' as u8, 'h' as u8, 'e' as u8, 'r' as u8, '_' as u8, 's' as u8, 'c' as u8, 'r' as u8, 'i' as u8, 'p' as u8, 't' as u8, 's' as u8],
        Block::Clone => seq!['c' as u8, 'l' as u8, 'o' as u8, 'n' as u8, 'e' as u8],
        Block::DeleteThisClone => seq!['d' as u8, 'e' as u8, 'l' as u8, 'e' as u8, 't' as u8, 'e' as u8, '_' as u8, 't' as u8, 'h' as u8, 'i' as u8, 's' as u8, '_' as u8, 'c' as u8, 'l' as u8, 'o' as u8, 'n' as u8, 'e' as u8],
        Block::Move => seq!['m' as u8, 'o' as u8, 'v' as u8, 'e' as u8],
        Block::TurnLeft => seq!['t' as u8, 'u' as u8, 'r' as u8, 'n' as u8, '_' as u8, 'l' as u8, 'e' as u8, 'f' as u8, 't' as u8],
        Block::TurnRight => seq!['t' as u8, 'u' as u8, 'r' as u8, 'n' as u8, '_' as u8, 'r' as u8, 'i' as u8, 'g' as u8, 'h' as u8, 't' as u8],
        Block::SetX => seq!['s' as u8, 'e' as u8, 't' as u8, '_' as u8, 'x' as u8],
        Block::SetY => seq!['s' as u8, 'e' as u8, 't' as u8, '_' as u8, 'y' as u8],
        Block::ChangeX => seq!['c' as u8, 'h' as u8, 'a' as u8, 'n' as u8, 'g' as u8, 'e' as u8, '_' as u8, 'x' as u8],
        Block::ChangeY => seq!['c' as u8, 'h' as u8, 'a' as u8, 'n' as u8, 'g' as u8, 'e' as u8, '_' as u8, 'y' as u8],
    }
}

/// The name of a reporter of the standard library, as written in a source.
pub open spec fn repr_spelling(r: Repr) -> Seq<u8> {
    match r {
        Repr::Random => seq!['r' as u8, 'a' as u8, 'n' as u8, 'd' as u8, 'o' as u8, 'm' as u8],
        Repr::Timer => seq!['t' as u8, 'i' as u8, 'm' as u8, 'e' as u8, 'r' as u8],
        Repr::Answer => seq!['a' as u8, 'n' as u8, 's' as u8, 'w' as u8, 'e' as u8, 'r' as u8],
        Repr::MouseX => seq!['m' as u8, 'o' as u8, 'u' as u8, 's' as u8, 'e' as u8, '_' as u8, 'x' as u8],
        Repr::MouseY => seq!['m' as u8, 'o' as u8, 'u' as u8, 's' as u8, 'e' as u8, '_' as u8, 'y' as u8],
        Repr::XPosition => seq!['x' as u8, '_' as u8, 'p' as u8, 'o' as u8, 's' as u8, 'i' as u8, 't' as u8, 'i' as u8, 'o' as u8, 'n' as u8],
        Repr::YPosition => seq!['y' as u8, '_' as u8, 'p' as u8, 'o' as u8, 's' as u8, 'i' as u8, 't' as u8, 'i' as u8, 'o' as u8, 'n' as u8],
        Repr::Direction => seq!['d' as u8, 'i' as u8, 'r' as u8, 'e' as u8, 'c' as u8, 't' as u8, 'i' as u8, 'o' as u8, 'n' as u8],
    }
}

} // verus!
