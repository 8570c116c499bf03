use langulo::vm::garbage_collector::GarbageCollector;
use langulo::word::conversions::{i32_from_bits, i32_to_bits};
use langulo::word::heap::{Heap, HeapFloat, HeapObject};
use langulo::word::opcode::OpCode;
use langulo::word::structure::{ValueTag, Word};
use langulo::word::table::Table;

#[test]
fn conversions_int() {
    let w = Word::integer(2345, OpCode::Value);
    println!("{:?}", w);
    assert_eq!(w.tag(), ValueTag::Int);
    assert_eq!(w.to_int(), 2345);
    let w = Word::integer(-21, OpCode::Value);
    println!("{:?}", w);
    assert_eq!(w.tag(), ValueTag::Int);
    assert_eq!(w.to_int(), -21);
    let w = Word::integer(-21, OpCode::Add);
    println!("{:?}", w);
    assert_eq!(w.tag(), ValueTag::Int);
    assert_eq!(w.opcode(), OpCode::Add);
    assert_eq!(w.to_int(), -21);
}

#[test]
fn conversions_bools() {
    let w = Word::bool(true, OpCode::Value);
    println!("{:?}", w);
    assert_eq!(w.tag(), ValueTag::Bool);
    assert_eq!(w.to_bool(), true);

    let w = Word::bool(false, OpCode::Value);
    println!("{:?}", w);
    assert_eq!(w.tag(), ValueTag::Bool);
    assert_eq!(w.to_bool(), false);
}

#[test]
fn conversions_chars() {
    for ch in "Hello, world!".chars() {
        let w = Word::char(ch, OpCode::Value);
        println!("{:?}", w);
        assert_eq!(w.tag(), ValueTag::Char);
        assert_eq!(w.to_char(), ch);
    }
}

#[test]
fn conversions_float() {
    let mut heap = Heap::new();
    let mut gc = GarbageCollector::new();
    let w = Word::float(3.14f64.to_bits(), OpCode::Value, &mut heap, &mut gc);
    println!("{:?}", w);
    assert_eq!(f64::from_bits(w.to_float(&heap)), 3.14);
    let w = Word::float((-2.7181f64).to_bits(), OpCode::Value, &mut heap, &mut gc);
    println!("{:?}", w);
    assert_eq!(f64::from_bits(w.to_float(&heap)), -2.7181);
    let w = Word::float(0.0f64.to_bits(), OpCode::Add, &mut heap, &mut gc);
    println!("{:?}", w);
    assert_eq!(w.opcode(), OpCode::Add);
    assert_eq!(f64::from_bits(w.to_float(&heap)), 0.0);
}

#[test]
fn conversions_string() {
    let mut heap = Heap::new();
    let mut gc = GarbageCollector::new();
    let w = Word::str("Hello, world!", OpCode::Value, &mut heap, &mut gc);
    println!("{:?}", w);
    assert_eq!(w.as_str(&heap), "Hello, world!");

    let mut w_mut = Word::str("Hello", OpCode::Value, &mut heap, &mut gc);
    w_mut.as_str_mut(&mut heap).push_str(", world!");
    assert_eq!(w_mut.as_str(&heap), "Hello, world!");
}

#[test]
fn conversions_table() {
    let mut heap = Heap::new();
    let mut gc = GarbageCollector::new();
    let mut table = Table::new();
    let hello = Word::str("hello", OpCode::Value, &mut heap, &mut gc);
    table.insert(Word::integer(1, OpCode::Value), hello);
    let world = Word::str("world", OpCode::Value, &mut heap, &mut gc);
    table.insert(Word::integer(2, OpCode::Value), world);

    let mut w = Word::table(table, OpCode::Value, &mut heap, &mut gc);
    println!("{:?}", w);
    assert_eq!(w.as_table(&heap).len(), 2);
    assert_eq!(
        w.as_table(&heap).get(&Word::integer(1, OpCode::Value)).unwrap().as_str(&heap),
        "hello"
    );
    assert_eq!(
        w.as_table(&heap).get(&Word::integer(2, OpCode::Value)).unwrap().as_str(&heap),
        "world"
    );
    w.as_table_mut(&mut heap).remove(&Word::integer(1, OpCode::Value));
    assert_eq!(w.as_table(&heap).len(), 1);
}

#[test]
fn integers_are_two_s_complement() {
    assert_eq!(i32_to_bits(0), 0);
    assert_eq!(i32_to_bits(-1), 0xFFFF_FFFF);
    assert_eq!(i32_to_bits(i32::MIN), 0x8000_0000);
    assert_eq!(i32_to_bits(i32::MAX), 0x7FFF_FFFF);
    assert_eq!(i32_from_bits(0xFFFF_FFFE), -2);
    assert_eq!(i32_from_bits(0x8000_0000), i32::MIN);
    for v in [0, 1, -1, 7, -7, i32::MIN, i32::MAX, 65536, -65536] {
        assert_eq!(i32_from_bits(i32_to_bits(v)), v);
        assert_eq!(Word::integer(v, OpCode::Value).to_int(), v);
        assert_eq!(Word::integer(v, OpCode::Value).value(), v as u32);
    }
}

#[test]
fn characters_keep_their_low_byte() {
    assert_eq!(Word::char('a', OpCode::Value).value(), 97);
    assert_eq!(Word::char('\u{e9}', OpCode::Value).to_char(), '\u{e9}');
    assert_eq!(Word::char('\u{141}', OpCode::Value).value(), 0x41);
    assert_eq!(Word::char('\u{141}', OpCode::Value).to_char(), 'A');
}

#[test]
fn constant_references_and_sentinels() {
    let w = Word::raw_float(7);
    assert_eq!(w.tag(), ValueTag::FloatPtr);
    assert_eq!(w.opcode(), OpCode::ReadFromMap);
    assert_eq!(w.value(), 7);
    assert_eq!(w.aux(), 0);

    let no = Word::no_option();
    assert_eq!(no.tag(), ValueTag::Special);
    assert_eq!(no.opcode(), OpCode::Value);
    assert_eq!(no.value(), 1);
    let arm = Word::default_table_arm();
    assert_eq!(arm.tag(), ValueTag::Special);
    assert_eq!(arm.opcode(), OpCode::Value);
    assert_eq!(arm.value(), 0);
    assert_ne!(no, arm);
}

#[test]
fn heap_hands_out_rising_addresses() {
    let mut heap = Heap::new();
    let mut gc = GarbageCollector::new();
    assert!(heap.has_room());
    assert_eq!(heap.len(), 0);
    let a = Word::float(1.5f64.to_bits(), OpCode::Value, &mut heap, &mut gc);
    let b = Word::option(Some(a), OpCode::Value, &mut heap, &mut gc);
    let c = Word::option(None, OpCode::Add, &mut heap, &mut gc);
    assert_eq!((a.ptr(), b.ptr(), c.ptr()), (0, 1, 2));
    assert_eq!(heap.len(), 3);
    assert_eq!(b.tag(), ValueTag::OptionPtr);
    assert_eq!(c.opcode(), OpCode::Add);
    assert_eq!(b.as_option(&heap), Some(a));
    assert_eq!(c.as_option(&heap), None);
    assert!(gc.all_marked());
    // a word of another kind, or behind the end of the heap, refers to nothing
    assert_eq!(heap.float_of(b), None);
    assert_eq!(heap.option_of(a), None);
    assert_eq!(heap.float_of(Word::new(3, OpCode::Value, ValueTag::FloatPtr)), None);
    assert!(heap.str_of(a).is_none());
    assert!(heap.table_of(a).is_none());
}

#[test]
fn update_and_free() {
    let mut heap = Heap::new();
    let mut gc = GarbageCollector::new();
    let mut a = Word::float(1.0f64.to_bits(), OpCode::Add, &mut heap, &mut gc);
    a.update_heap_value(&mut heap, HeapObject::Float(HeapFloat(2.0f64.to_bits())), OpCode::Value);
    assert_eq!(a.opcode(), OpCode::Value);
    assert_eq!(a.ptr(), 0);
    assert_eq!(f64::from_bits(a.to_float(&heap)), 2.0);

    let o = Word::option(Some(a), OpCode::Value, &mut heap, &mut gc);
    o.free(&mut heap);
    assert_eq!(o.as_option(&heap), Some(a));
    Word::integer(0, OpCode::Value).free(&mut heap);
    assert_eq!(heap.float_of(a), Some(2.0f64.to_bits()));
    a.free(&mut heap);
    assert_eq!(heap.float_of(a), None);
    assert_eq!(heap.len(), 2);
}
