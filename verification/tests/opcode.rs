use scheme_engine::limits::{MAX_JUMP_ADDR, MAX_JUMP_ADDR_BITS, MAX_LOCALS};
use scheme_engine::opcode::{
    ConstantId, JumpAddr, LocalId, Op, ProcId, SymbolId, UpValueId, UpValueOrigin,
};
use scheme_engine::span::Span;

#[test]
fn test_opcode_size() {
    println!(
        "size_of::<Op>() -> {} Bytes, {} bits",
        std::mem::size_of::<Op>(),
        std::mem::size_of::<Op>() * 8
    );
}

#[test]
fn test_jump_addr() {
    let addr = JumpAddr::new(787199);
    assert_eq!(addr.bytes(), [255, 2, 12]);

    let index = addr.as_usize();
    assert_eq!(index, 787199);
}

#[test]
fn jump_addr_round_trips() {
    for index in [0usize, 1, 255, 256, 65535, 65536, 0x123456, MAX_JUMP_ADDR - 1] {
        assert_eq!(JumpAddr::new(index).as_usize(), index);
        assert_eq!(JumpAddr::checked(index).map(|a| a.as_usize()), Some(index));
    }
    assert_eq!(JumpAddr::zero().as_usize(), 0);
    assert_eq!(JumpAddr::zero().bytes(), [0, 0, 0]);
}

#[test]
fn jump_addr_beyond_24_bits_is_refused() {
    assert_eq!(MAX_JUMP_ADDR, 1 << MAX_JUMP_ADDR_BITS);
    assert_eq!(MAX_LOCALS, 256);
    assert!(JumpAddr::checked(MAX_JUMP_ADDR - 1).is_some());
    assert!(JumpAddr::checked(MAX_JUMP_ADDR).is_none());
    assert!(JumpAddr::checked(usize::MAX).is_none());
}

#[test]
fn identifiers_wrap_their_numbers() {
    assert_eq!(ConstantId::new(42).as_inner(), 42);
    assert_eq!(ConstantId::new(42).as_usize(), 42);
    assert_eq!(LocalId::new(255).as_usize(), 255);
    assert_eq!(UpValueId::new(7).as_inner(), 7);
    assert_eq!(ProcId::new(65535).as_usize(), 65535);
    assert_eq!(SymbolId::new(3).as_inner(), 3);
    assert_eq!(SymbolId::new(3), SymbolId::new(3));
    assert_ne!(SymbolId::new(3), SymbolId::new(4));
}

#[test]
fn up_value_origins_tell_parent_from_outer() {
    let parent = UpValueOrigin::Parent(LocalId::new(1));
    let outer = UpValueOrigin::Outer(UpValueId::new(1));
    assert!(parent.is_parent());
    assert!(!parent.is_outer());
    assert!(outer.is_outer());
    assert!(!outer.is_parent());
}

#[test]
fn spans_are_half_open_ranges() {
    let span = Span::new(3, 4);
    assert_eq!(span.low(), 3);
    assert_eq!(span.high(), 7);
    assert_eq!(span.size(), 4);
    assert_eq!(span.as_range(), 3..7);
    assert_eq!(Span::new(5, 0).size(), 0);
}
