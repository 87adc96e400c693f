use vstd::prelude::*;

verus! {

/// What went wrong. Every error is fatal to the run that meets it.
#[derive(Clone, Copy, Debug, PartialEq, Eq, Structural)]
pub enum ErrorKind {
    /// A character that starts no token.
    UnknownSymbol,
    /// `0x` without a hexadecimal digit after it.
    HexFormat,
    /// An integer literal above `u32::MAX`.
    LiteralOverflow,
    /// A token of the wrong kind where an operand or a separator belongs.
    UnexpectedToken,
    /// `size [..]` without `PTR`.
    MissingPtr,
    /// A memory operand without `[` or `]`.
    MissingBracket,
    /// A negative immediate below `-2^31`.
    ImmediateOutOfRange,
    /// Operand sizes that the instruction does not allow together.
    SizeMismatch,
    /// A memory operand outside the memory array.
    AddressOutOfRange,
    /// A shift count above 255.
    ShiftCountOutOfRange,
    /// The instruction stream ended in the middle of an instruction.
    EndOfText,
    /// A branch or call whose operand is not a label.
    ExpectedLabel,
    /// A branch or call to a label that is not defined.
    UnknownLabel,
    /// A colon that does not follow a label.
    MisplacedColon,
    /// `div` or `idiv` by zero.
    DivideByZero,
    /// A push or pop outside the stack array.
    StackOutOfRange,
    /// A branch target outside `0..2^32`.
    ProgramCounterOutOfRange,
    /// More nested calls than the depth counter holds.
    CallDepthOverflow,
    /// The run did not halt within its step budget.
    StepLimit,
}

} // verus!
