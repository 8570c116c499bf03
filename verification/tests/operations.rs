use langulo::errors::err::{LanguloErr, VmError};
use langulo::vm::garbage_collector::GarbageCollector;
use langulo::word::heap::Heap;
use langulo::word::opcode::OpCode;
use langulo::word::operations::{
    binary_of, float_order_exec, holds_exec, int_arith_exec, lex_order_exec, Arith, Binary,
    FloatRequest, Logic, Operand, Order, Outcome, Relation,
};
use langulo::word::structure::{ValueTag, Word};

#[test]
fn test_add_inplace() {
    let heap = Heap::new();
    let mut w = Word::integer(5, OpCode::Add);
    let rhs = Word::integer(3, OpCode::Value);
    w.add_inplace(&rhs, &heap).unwrap();
    assert_eq!(w.to_int(), 8);

    let rhs2 = Word::integer(-18, OpCode::Value);
    assert_eq!(rhs2.to_int(), -18);
    w.add_inplace(&rhs2, &heap).unwrap();
    println!("{:?}", w);
    assert_eq!(w.to_int(), -10);
}

#[test]
fn stack_eq_ne() {
    let heap = Heap::new();
    let mut w = Word::integer(5, OpCode::Value);
    let w2 = Word::integer(5, OpCode::Value);
    w.equals_inplace(&w2, &heap).unwrap();
    assert!(w.to_bool());

    let mut w = Word::integer(5, OpCode::Value);
    let w3 = Word::integer(6, OpCode::Value);
    w.equals_inplace(&w3, &heap).unwrap();
    assert!(!w.to_bool());
}

#[test]
fn heap_eq_ne() {
    let mut heap = Heap::new();
    let mut gc = GarbageCollector::new();
    let mut w = Word::float(5.3f64.to_bits(), OpCode::Value, &mut heap, &mut gc);
    let w2 = Word::float(5.3f64.to_bits(), OpCode::Value, &mut heap, &mut gc);
    w.equals_inplace(&w2, &heap).unwrap();
    assert!(w.to_bool());

    let mut w = Word::float(5.3f64.to_bits(), OpCode::Value, &mut heap, &mut gc);
    let w3 = Word::float(5.3000001f64.to_bits(), OpCode::Value, &mut heap, &mut gc);
    w.equals_inplace(&w3, &heap).unwrap();
    assert!(!w.to_bool());
}

fn int_op(op: Arith, a: i32, b: i32) -> Result<i32, VmError> {
    int_arith_exec(op, a, b)
}

#[test]
fn integer_arithmetic_is_exact_in_range() {
    assert_eq!(int_op(Arith::Add, 3, 2), Ok(5));
    assert_eq!(int_op(Arith::Add, -3, 2), Ok(-1));
    assert_eq!(int_op(Arith::Subtract, 3, 5), Ok(-2));
    assert_eq!(int_op(Arith::Multiply, 3, 5), Ok(15));
    assert_eq!(int_op(Arith::Multiply, -46341, 46340), Ok(-46341 * 46340));
    assert_eq!(int_op(Arith::Divide, 7, 2), Ok(3));
    assert_eq!(int_op(Arith::Divide, -7, 2), Ok(-3));
    assert_eq!(int_op(Arith::Divide, 7, -2), Ok(-3));
    assert_eq!(int_op(Arith::Divide, -7, -2), Ok(3));
    assert_eq!(int_op(Arith::Modulo, 7, 3), Ok(1));
    assert_eq!(int_op(Arith::Modulo, -7, 3), Ok(-1));
    assert_eq!(int_op(Arith::Modulo, 7, -3), Ok(1));
    assert_eq!(int_op(Arith::Modulo, -7, -3), Ok(-1));
    assert_eq!(int_op(Arith::Modulo, i32::MIN, -1), Ok(0));
    for (a, b) in [(17, 5), (-17, 5), (17, -5), (-17, -5), (0, 9), (i32::MAX, 2), (i32::MIN, 3)] {
        assert_eq!(int_op(Arith::Divide, a, b), Ok(a / b));
        assert_eq!(int_op(Arith::Modulo, a, b), Ok(a % b));
        assert_eq!(int_op(Arith::Add, a, b), Ok(a.wrapping_add(b)));
        assert_eq!(int_op(Arith::Subtract, a, b), Ok(a.wrapping_sub(b)));
        assert_eq!(int_op(Arith::Multiply, a, b), Ok(a.wrapping_mul(b)));
    }
}

#[test]
fn integer_arithmetic_wraps() {
    assert_eq!(int_op(Arith::Add, i32::MAX, 1), Ok(i32::MIN));
    assert_eq!(int_op(Arith::Subtract, i32::MIN, 1), Ok(i32::MAX));
    assert_eq!(int_op(Arith::Multiply, i32::MIN, i32::MIN), Ok(0));
    assert_eq!(int_op(Arith::Multiply, i32::MAX, i32::MAX), Ok(1));
    assert_eq!(int_op(Arith::Divide, i32::MIN, -1), Ok(i32::MIN));
}

#[test]
fn division_by_zero_fails() {
    assert_eq!(int_op(Arith::Divide, 1, 0), Err(VmError::DivisionByZero));
    assert_eq!(int_op(Arith::Modulo, 1, 0), Err(VmError::DivisionByZero));
    assert_eq!(int_op(Arith::Power, 1, 0), Err(VmError::BadOperand));

    let mut heap = Heap::new();
    let mut gc = GarbageCollector::new();
    let mut w = Word::integer(4, OpCode::Value);
    let before = w;
    assert_eq!(
        w.divide_inplace(&Word::integer(0, OpCode::Value), &heap),
        Err(LanguloErr::Vm(VmError::DivisionByZero))
    );
    assert_eq!(w, before);
    assert_eq!(
        w.modulo_inplace(&Word::integer(0, OpCode::Value), &heap),
        Err(LanguloErr::Vm(VmError::DivisionByZero))
    );
    let mut f = Word::float(1.0f64.to_bits(), OpCode::Value, &mut heap, &mut gc);
    let zero = Word::float(0.0f64.to_bits(), OpCode::Value, &mut heap, &mut gc);
    let minus_zero = Word::float((-0.0f64).to_bits(), OpCode::Value, &mut heap, &mut gc);
    assert_eq!(f.divide_inplace(&zero, &heap), Err(LanguloErr::Vm(VmError::DivisionByZero)));
    assert_eq!(f.modulo_inplace(&minus_zero, &heap), Err(LanguloErr::Vm(VmError::DivisionByZero)));
    // adding zero is no division
    assert!(matches!(f.add_inplace(&zero, &heap), Ok(Outcome::Float(_))));
}

#[test]
fn operators_keep_the_aux_of_the_left_operand() {
    let heap = Heap::new();
    let mut w = Word::integer(6, OpCode::Add);
    w.set_aux(77);
    assert_eq!(w.multiply_inplace(&Word::integer(7, OpCode::MultiplyThis), &heap), Ok(Outcome::Done));
    assert_eq!(w.to_int(), 42);
    assert_eq!(w.aux(), 77);
    assert_eq!(w.opcode(), OpCode::Value);
    assert_eq!(w.tag(), ValueTag::Int);
    assert_eq!(w.subtract_inplace(&Word::integer(50, OpCode::Value), &heap), Ok(Outcome::Done));
    assert_eq!(w.to_int(), -8);
}

#[test]
fn operands_must_be_of_one_kind() {
    let heap = Heap::new();
    let mut w = Word::integer(6, OpCode::Value);
    let before = w;
    let mismatch = Err(LanguloErr::Vm(VmError::TagMismatch));
    assert_eq!(w.add_inplace(&Word::bool(true, OpCode::Value), &heap), mismatch);
    assert_eq!(w.logical_and_inplace(&Word::bool(true, OpCode::Value)), mismatch);
    assert_eq!(w.equals_inplace(&Word::char('a', OpCode::Value), &heap), mismatch);
    assert_eq!(w.less_than_inplace(&Word::bool(false, OpCode::Value), &heap), mismatch);
    assert_eq!(w, before);

    let bad = Err(LanguloErr::Vm(VmError::BadOperand));
    let mut b = Word::bool(true, OpCode::Value);
    assert_eq!(b.add_inplace(&Word::bool(true, OpCode::Value), &heap), bad);
    assert_eq!(w.logical_or_inplace(&Word::integer(1, OpCode::Value)), bad);
    let mut s = Word::no_option();
    assert_eq!(s.equals_inplace(&Word::default_table_arm(), &heap), bad);
    // a float word that refers to nothing
    let mut dangling = Word::new(3, OpCode::Value, ValueTag::FloatPtr);
    assert_eq!(
        dangling.add_inplace(&Word::new(4, OpCode::Value, ValueTag::FloatPtr), &heap),
        Err(LanguloErr::Vm(VmError::BadAddress))
    );
}

#[test]
fn logic() {
    for a in [false, true] {
        for b in [false, true] {
            let rhs = Word::bool(b, OpCode::Value);
            let mut w = Word::bool(a, OpCode::Value);
            w.logical_and_inplace(&rhs).unwrap();
            assert_eq!(w, Word::bool(a && b, OpCode::Value));
            let mut w = Word::bool(a, OpCode::Value);
            w.logical_or_inplace(&rhs).unwrap();
            assert_eq!(w, Word::bool(a || b, OpCode::Value));
            let mut w = Word::bool(a, OpCode::Value);
            w.logical_xor_inplace(&rhs).unwrap();
            assert_eq!(w, Word::bool(a ^ b, OpCode::Value));
            let mut w = Word::bool(a, OpCode::Value);
            assert_eq!(w.logic_inplace(Logic::Xor, &rhs), Ok(Outcome::Done));
            assert_eq!(w.to_bool(), a != b);
        }
    }
}

fn relations(lhs: Word, rhs: Word, heap: &Heap) -> [bool; 6] {
    let mut out = [false; 6];
    let all = [
        Relation::LessThan,
        Relation::Equals,
        Relation::GreaterThan,
        Relation::NotEquals,
        Relation::LessThanEq,
        Relation::GreaterThanEq,
    ];
    for (i, relation) in all.into_iter().enumerate() {
        let mut w = lhs;
        assert_eq!(w.relate_inplace(relation, &rhs, heap), Ok(Outcome::Done));
        assert_eq!(w.tag(), ValueTag::Bool);
        assert_eq!(w.opcode(), OpCode::Value);
        out[i] = w.to_bool();
    }
    out
}

#[test]
fn exactly_one_of_less_equal_greater() {
    let mut heap = Heap::new();
    let mut gc = GarbageCollector::new();
    let mut pairs = vec![
        (Word::integer(3, OpCode::Value), Word::integer(5, OpCode::Value)),
        (Word::integer(5, OpCode::Value), Word::integer(3, OpCode::Value)),
        (Word::integer(3, OpCode::Value), Word::integer(3, OpCode::Value)),
        (Word::integer(-1, OpCode::Value), Word::integer(3, OpCode::Value)),
        (Word::integer(-7, OpCode::Value), Word::integer(-7, OpCode::Value)),
        (Word::integer(i32::MAX, OpCode::Value), Word::integer(i32::MIN, OpCode::Value)),
        (Word::bool(false, OpCode::Value), Word::bool(true, OpCode::Value)),
        (Word::char('a', OpCode::Value), Word::char('b', OpCode::Value)),
        (Word::char('z', OpCode::Value), Word::char('z', OpCode::Value)),
    ];
    for (a, b) in [(1.5f64, 2.5f64), (2.5, 1.5), (-1.0, 1.0), (0.0, -0.0), (-3.0, -2.0), (f64::INFINITY, 1e308), (f64::NEG_INFINITY, -1e308), (5e-324, 0.0)] {
        let x = Word::float(a.to_bits(), OpCode::Value, &mut heap, &mut gc);
        let y = Word::float(b.to_bits(), OpCode::Value, &mut heap, &mut gc);
        pairs.push((x, y));
    }
    for (a, b) in [("abc", "abd"), ("abc", "abc"), ("b", "abc"), ("", "a"), ("ab", "abc"), ("é", "z")] {
        let x = Word::str(a, OpCode::Value, &mut heap, &mut gc);
        let y = Word::str(b, OpCode::Value, &mut heap, &mut gc);
        pairs.push((x, y));
    }
    for (lhs, rhs) in pairs {
        let [lt, eq, gt, ne, le, ge] = relations(lhs, rhs, &heap);
        assert_eq!([lt, eq, gt].iter().filter(|b| **b).count(), 1);
        assert_eq!(ne, !eq);
        assert_eq!(le, lt || eq);
        assert_eq!(ge, gt || eq);
    }
}

#[test]
fn floats_order_as_their_values() {
    let values = [
        f64::NEG_INFINITY, -1e308, -2.5, -1.0, -5e-324, -0.0, 0.0, 5e-324, 1.0, 2.5, 1e308,
        f64::INFINITY, f64::NAN,
    ];
    for a in values {
        for b in values {
            let expected = match a.partial_cmp(&b) {
                Some(std::cmp::Ordering::Less) => Some(Order::Less),
                Some(std::cmp::Ordering::Equal) => Some(Order::Equal),
                Some(std::cmp::Ordering::Greater) => Some(Order::Greater),
                None => None,
            };
            assert_eq!(float_order_exec(a.to_bits(), b.to_bits()), expected);
        }
    }
}

#[test]
fn not_a_number_is_unordered() {
    let mut heap = Heap::new();
    let mut gc = GarbageCollector::new();
    let nan = Word::float(f64::NAN.to_bits(), OpCode::Value, &mut heap, &mut gc);
    let one = Word::float(1.0f64.to_bits(), OpCode::Value, &mut heap, &mut gc);
    assert_eq!(relations(nan, nan, &heap), [false, false, false, true, false, false]);
    assert_eq!(relations(nan, one, &heap), [false, false, false, true, false, false]);
    assert_eq!(nan.order(&one, &heap), Ok(None));
    assert_eq!(one.order(&one, &heap), Ok(Some(Order::Equal)));
}

#[test]
fn strings_order_by_their_bytes() {
    for (a, b) in [("", ""), ("a", ""), ("", "a"), ("abc", "abd"), ("abd", "abc"), ("ab", "abc"), ("Z", "a")] {
        let expected = match a.as_bytes().cmp(b.as_bytes()) {
            std::cmp::Ordering::Less => Order::Less,
            std::cmp::Ordering::Equal => Order::Equal,
            std::cmp::Ordering::Greater => Order::Greater,
        };
        assert_eq!(lex_order_exec(a.as_bytes(), b.as_bytes()), expected);
    }
}

#[test]
fn integers_order_as_signed_numbers() {
    let heap = Heap::new();
    let three = Word::integer(3, OpCode::Value);
    let minus = Word::integer(-1, OpCode::Value);
    assert_eq!(three.order(&Word::integer(5, OpCode::Value), &heap), Ok(Some(Order::Less)));
    assert_eq!(minus.order(&three, &heap), Ok(Some(Order::Less)));
    assert_eq!(three.order(&minus, &heap), Ok(Some(Order::Greater)));
    assert_eq!(minus.order(&Word::integer(-1, OpCode::Add), &heap), Ok(Some(Order::Equal)));
    assert_eq!(
        Word::integer(i32::MIN, OpCode::Value).order(&Word::integer(i32::MAX, OpCode::Value), &heap),
        Ok(Some(Order::Less))
    );
    assert_eq!(
        Word::integer(-2, OpCode::Value).order(&Word::integer(-3, OpCode::Value), &heap),
        Ok(Some(Order::Greater))
    );
    let [lt, eq, gt, ne, le, ge] = relations(minus, three, &heap);
    assert_eq!([lt, eq, gt, ne, le, ge], [true, false, false, true, true, false]);
    // booleans and characters go by their payload
    assert_eq!(
        Word::bool(false, OpCode::Value).order(&Word::bool(true, OpCode::Value), &heap),
        Ok(Some(Order::Less))
    );
    assert_eq!(
        Word::char('b', OpCode::Value).order(&Word::char('a', OpCode::Value), &heap),
        Ok(Some(Order::Greater))
    );
    assert!(holds_exec(Relation::GreaterThanEq, Some(Order::Equal)));
    assert!(!holds_exec(Relation::GreaterThan, Some(Order::Equal)));
    assert!(holds_exec(Relation::NotEquals, None));
    assert!(!holds_exec(Relation::LessThanEq, None));
}

#[test]
fn floats_are_asked_for() {
    let mut heap = Heap::new();
    let mut gc = GarbageCollector::new();
    let mut a = Word::float(3.0f64.to_bits(), OpCode::Value, &mut heap, &mut gc);
    let b = Word::float(5.0f64.to_bits(), OpCode::AddThis, &mut heap, &mut gc);
    let before = a;
    let request = FloatRequest {
        op: Arith::Add,
        lhs: Operand::Float(3.0f64.to_bits()),
        rhs: Operand::Float(5.0f64.to_bits()),
    };
    assert_eq!(a.add_inplace(&b, &heap), Ok(Outcome::Float(request)));
    assert_eq!(a, before);
    // the result takes the place of the left operand, in the same cell
    a.complete_float(8.0f64.to_bits(), &mut heap, &mut gc).unwrap();
    assert_eq!(a.ptr(), before.ptr());
    assert_eq!(a.opcode(), OpCode::Value);
    assert_eq!(f64::from_bits(a.to_float(&heap)), 8.0);
    assert_eq!(heap.len(), 2);
}

#[test]
fn power_promotes_integers() {
    let mut heap = Heap::new();
    let mut gc = GarbageCollector::new();
    let three = Word::float(3.0f64.to_bits(), OpCode::Value, &mut heap, &mut gc);
    let mut base = Word::integer(2, OpCode::Value);
    assert_eq!(
        base.exponentiate_inplace(&Word::integer(3, OpCode::PowerThis), &heap),
        Ok(Outcome::Float(FloatRequest { op: Arith::Power, lhs: Operand::Int(2), rhs: Operand::Int(3) }))
    );
    assert_eq!(
        base.exponentiate_inplace(&three, &heap),
        Ok(Outcome::Float(FloatRequest {
            op: Arith::Power,
            lhs: Operand::Int(2),
            rhs: Operand::Float(3.0f64.to_bits())
        }))
    );
    let mut float_base = three;
    assert_eq!(
        float_base.exponentiate_inplace(&Word::integer(2, OpCode::Value), &heap),
        Ok(Outcome::Float(FloatRequest {
            op: Arith::Power,
            lhs: Operand::Float(3.0f64.to_bits()),
            rhs: Operand::Int(2)
        }))
    );
    assert_eq!(
        base.exponentiate_inplace(&Word::bool(true, OpCode::Value), &heap),
        Err(LanguloErr::Vm(VmError::BadOperand))
    );
    // an integer becomes a reference to a new float
    base.complete_float(8.0f64.to_bits(), &mut heap, &mut gc).unwrap();
    assert_eq!(base.tag(), ValueTag::FloatPtr);
    assert_eq!(base.ptr(), 1);
    assert_eq!(f64::from_bits(base.to_float(&heap)), 8.0);
    let mut b = Word::bool(true, OpCode::Value);
    assert_eq!(
        b.complete_float(0, &mut heap, &mut gc),
        Err(LanguloErr::Vm(VmError::BadOperand))
    );
}

#[test]
fn unwrap_undoes_wrap() {
    let mut heap = Heap::new();
    let mut gc = GarbageCollector::new();
    let f = Word::float(2.5f64.to_bits(), OpCode::Value, &mut heap, &mut gc);
    for x in [Word::integer(7, OpCode::Value), Word::integer(-7, OpCode::Value), Word::bool(false, OpCode::Value), Word::char('x', OpCode::Value), f] {
        let option = Word::wrap_in_option(x, &mut heap, &mut gc);
        assert_eq!(option.tag(), ValueTag::OptionPtr);
        assert_eq!(option.opcode(), OpCode::Value);
        assert_eq!(option.unwrap_option(&heap), Ok(x));
        let nested = Word::wrap_in_option(option, &mut heap, &mut gc);
        assert_eq!(nested.unwrap_option(&heap), Ok(option));
    }
    let none = Word::wrap_in_option(Word::no_option(), &mut heap, &mut gc);
    assert_eq!(none.unwrap_option(&heap), Err(LanguloErr::Vm(VmError::UnwrapNone)));
    assert_eq!(
        Word::integer(1, OpCode::Value).unwrap_option(&heap),
        Err(LanguloErr::Vm(VmError::BadOperand))
    );
}

#[test]
fn opcodes_name_their_operators() {
    assert!(matches!(binary_of(OpCode::Add), Some(Binary::Arith(Arith::Add))));
    assert!(matches!(binary_of(OpCode::Power), Some(Binary::Arith(Arith::Power))));
    assert!(matches!(binary_of(OpCode::LogicalXor), Some(Binary::Logic(Logic::Xor))));
    assert!(matches!(binary_of(OpCode::LessThanEq), Some(Binary::Relation(Relation::LessThanEq))));
    assert!(binary_of(OpCode::AddThis).is_none());
    assert!(binary_of(OpCode::Negate).is_none());
    let heap = Heap::new();
    let mut w = Word::integer(9, OpCode::Value);
    assert_eq!(
        w.apply_inplace(Binary::Arith(Arith::Modulo), &Word::integer(4, OpCode::Value), &heap),
        Ok(Outcome::Done)
    );
    assert_eq!(w.to_int(), 1);
    assert_eq!(
        w.apply_inplace(Binary::Relation(Relation::NotEquals), &Word::integer(4, OpCode::Value), &heap),
        Ok(Outcome::Done)
    );
    assert_eq!(w, Word::bool(true, OpCode::Value));
}
