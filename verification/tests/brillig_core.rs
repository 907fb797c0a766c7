use brillig::AddressError;
use brillig::BinaryFieldOp;
use brillig::BinaryIntOp;
use brillig::BitSize;
use brillig::BitSizeError;
use brillig::BlackBoxOp;
use brillig::BrilligOpcode;
use brillig::Field254;
use brillig::FieldElement;
use brillig::HeapArray;
use brillig::HeapValueType;
use brillig::HeapVector;
use brillig::IntegerBitSize;
use brillig::MemoryAddress;
use brillig::ValueOrArray;

fn all_widths() -> Vec<IntegerBitSize> {
    vec![
        IntegerBitSize::U1,
        IntegerBitSize::U8,
        IntegerBitSize::U16,
        IntegerBitSize::U32,
        IntegerBitSize::U64,
        IntegerBitSize::U128,
    ]
}

#[test]
fn integer_width_round_trip() {
    for w in all_widths() {
        assert_eq!(IntegerBitSize::from_u32(w.as_u32()), Ok(w));
    }
    assert_eq!(IntegerBitSize::U1.as_u32(), 1);
    assert_eq!(IntegerBitSize::U8.as_u32(), 8);
    assert_eq!(IntegerBitSize::U16.as_u32(), 16);
    assert_eq!(IntegerBitSize::U32.as_u32(), 32);
    assert_eq!(IntegerBitSize::U64.as_u32(), 64);
    assert_eq!(IntegerBitSize::U128.as_u32(), 128);
}

#[test]
fn unsupported_widths_fail() {
    for v in [0u32, 2, 7, 17, 127, 129, 255, 1000] {
        assert_eq!(IntegerBitSize::from_u32(v), Err(BitSizeError::InvalidBitSize));
        assert_eq!(
            BitSize::try_from_u32::<Field254>(v),
            Err(BitSizeError::InvalidBitSize)
        );
    }
}

#[test]
fn bit_size_round_trip() {
    let mut sizes = vec![BitSize::Field];
    for w in all_widths() {
        sizes.push(BitSize::Integer(w));
    }
    for b in sizes {
        assert_eq!(BitSize::try_from_u32::<Field254>(b.to_u32::<Field254>()), Ok(b));
    }
}

#[test]
fn width_conversion_scenario() {
    assert_eq!(Field254::max_num_bits(), 254);
    assert_eq!(BitSize::try_from_u32::<Field254>(254), Ok(BitSize::Field));
    assert_eq!(
        BitSize::try_from_u32::<Field254>(32),
        Ok(BitSize::Integer(IntegerBitSize::U32))
    );
    assert_eq!(
        BitSize::try_from_u32::<Field254>(17),
        Err(BitSizeError::InvalidBitSize)
    );
}

#[test]
fn width_names() {
    assert_eq!(IntegerBitSize::U1.name(), "bool");
    assert_eq!(IntegerBitSize::U8.name(), "u8");
    assert_eq!(IntegerBitSize::U16.name(), "u16");
    assert_eq!(IntegerBitSize::U32.name(), "u32");
    assert_eq!(IntegerBitSize::U64.name(), "u64");
    assert_eq!(IntegerBitSize::U128.name(), "u128");
}

#[test]
fn unwrap_accessors() {
    assert_eq!(MemoryAddress::direct(7).unwrap_direct(), Ok(7));
    assert_eq!(
        MemoryAddress::direct(7).unwrap_relative(),
        Err(AddressError::ExpectedRelative)
    );
    assert_eq!(MemoryAddress::relative(9).unwrap_relative(), Ok(9));
    assert_eq!(
        MemoryAddress::relative(9).unwrap_direct(),
        Err(AddressError::ExpectedDirect)
    );
}

#[test]
fn offset_preserves_tag() {
    assert_eq!(
        MemoryAddress::direct(4).offset(6),
        MemoryAddress::direct(10)
    );
    assert_eq!(
        MemoryAddress::relative(4).offset(6),
        MemoryAddress::relative(10)
    );
    assert!(!MemoryAddress::direct(4).offset(6).is_relative());
}

#[test]
fn addressing_scenario() {
    let a = MemoryAddress::relative(3).offset(2);
    assert_eq!(a, MemoryAddress::Relative(5));
    assert_eq!(a.to_usize(), 5);
    assert!(a.is_relative());
}

#[test]
fn heap_array_default() {
    let d = HeapArray::default();
    assert_eq!(d.size, 0);
    assert_eq!(d.pointer, MemoryAddress::Direct(0));
}

#[test]
fn all_simple_predicate() {
    let simple = HeapValueType::Simple(BitSize::Integer(IntegerBitSize::U8));
    let nested = HeapValueType::Array {
        value_types: vec![HeapValueType::field(), HeapValueType::field()],
        size: 2,
    };
    assert!(HeapValueType::all_simple(&[]));
    assert!(HeapValueType::all_simple(&[simple.clone(), HeapValueType::field()]));
    assert!(!HeapValueType::all_simple(&[simple.clone(), nested.clone()]));
    // An array whose children are all simple is still not simple itself.
    assert!(!HeapValueType::all_simple(&[nested]));
}

#[test]
fn field_shape() {
    assert_eq!(HeapValueType::field(), HeapValueType::Simple(BitSize::Field));
}

#[test]
fn address_codec_round_trip() {
    for a in [
        MemoryAddress::direct(0),
        MemoryAddress::direct(usize::MAX),
        MemoryAddress::relative(3),
        MemoryAddress::relative(usize::MAX),
    ] {
        let mut buf = Vec::new();
        a.encode(&mut buf);
        assert_eq!(MemoryAddress::decode(&buf, 0), Some((a, buf.len())));
    }
}

#[test]
fn width_codec_round_trip() {
    for w in all_widths() {
        let mut buf = Vec::new();
        w.encode(&mut buf);
        assert_eq!(IntegerBitSize::decode(&buf, 0), Some((w, buf.len())));
    }
    for b in [BitSize::Field, BitSize::Integer(IntegerBitSize::U128)] {
        let mut buf = Vec::new();
        b.encode(&mut buf);
        assert_eq!(BitSize::decode(&buf, 0), Some((b, buf.len())));
    }
}

#[test]
fn operator_codec_round_trip() {
    let field_ops = vec![
        BinaryFieldOp::Add,
        BinaryFieldOp::Sub,
        BinaryFieldOp::Mul,
        BinaryFieldOp::Div,
        BinaryFieldOp::IntegerDiv,
        BinaryFieldOp::Equals,
        BinaryFieldOp::LessThan,
        BinaryFieldOp::LessThanEquals,
    ];
    for op in field_ops {
        let mut buf = Vec::new();
        op.encode(&mut buf);
        assert_eq!(BinaryFieldOp::decode(&buf, 0), Some((op, buf.len())));
    }
    let int_ops = vec![
        BinaryIntOp::Add,
        BinaryIntOp::Sub,
        BinaryIntOp::Mul,
        BinaryIntOp::Div,
        BinaryIntOp::Equals,
        BinaryIntOp::LessThan,
        BinaryIntOp::LessThanEquals,
        BinaryIntOp::And,
        BinaryIntOp::Or,
        BinaryIntOp::Xor,
        BinaryIntOp::Shl,
        BinaryIntOp::Shr,
    ];
    for op in int_ops {
        let mut buf = Vec::new();
        op.encode(&mut buf);
        assert_eq!(BinaryIntOp::decode(&buf, 0), Some((op, buf.len())));
    }
}

#[test]
fn heap_descriptor_codec_round_trip() {
    let arr = HeapArray { pointer: MemoryAddress::direct(12), size: 4 };
    let mut buf = Vec::new();
    arr.encode(&mut buf);
    assert_eq!(HeapArray::decode(&buf, 0), Some((arr, buf.len())));

    let vec_desc = HeapVector {
        pointer: MemoryAddress::relative(1),
        size: MemoryAddress::direct(2),
    };
    let mut buf = Vec::new();
    vec_desc.encode(&mut buf);
    assert_eq!(HeapVector::decode(&buf, 0), Some((vec_desc, buf.len())));

    for v in [
        ValueOrArray::MemoryAddress(MemoryAddress::direct(3)),
        ValueOrArray::HeapArray(arr),
        ValueOrArray::HeapVector(vec_desc),
    ] {
        let mut buf = Vec::new();
        v.encode(&mut buf);
        assert_eq!(ValueOrArray::decode(&buf, 0), Some((v, buf.len())));
    }
}

#[test]
fn shape_codec_round_trip() {
    let shape = HeapValueType::Array {
        value_types: vec![
            HeapValueType::Simple(BitSize::Integer(IntegerBitSize::U32)),
            HeapValueType::Vector {
                value_types: vec![HeapValueType::field()],
            },
            HeapValueType::Array { value_types: vec![], size: 0 },
        ],
        size: 9,
    };
    let mut buf = Vec::new();
    shape.encode(&mut buf);
    let (decoded, end) = HeapValueType::decode(&buf, 0).unwrap();
    assert_eq!(decoded, shape);
    assert_eq!(end, buf.len());
}

#[test]
fn field_element_codec_round_trip() {
    let x = Field254 { low: 0x0123456789abcdef0123456789abcdef, high: 3 };
    let mut buf = Vec::new();
    x.encode(&mut buf);
    assert_eq!(buf.len(), 32);
    assert_eq!(Field254::decode(&buf, 0), Some((x, 32)));
}

#[test]
fn opcode_codec_round_trip() {
    let ops: Vec<BrilligOpcode<Field254>> = vec![
        BrilligOpcode::BinaryFieldOp {
            destination: MemoryAddress::direct(0),
            op: BinaryFieldOp::Mul,
            lhs: MemoryAddress::direct(1),
            rhs: MemoryAddress::relative(2),
        },
        BrilligOpcode::BinaryIntOp {
            destination: MemoryAddress::direct(2),
            op: BinaryIntOp::Add,
            bit_size: IntegerBitSize::U32,
            lhs: MemoryAddress::direct(0),
            rhs: MemoryAddress::direct(1),
        },
        BrilligOpcode::Not {
            destination: MemoryAddress::direct(1),
            source: MemoryAddress::direct(2),
            bit_size: IntegerBitSize::U64,
        },
        BrilligOpcode::Cast {
            destination: MemoryAddress::direct(1),
            source: MemoryAddress::direct(2),
            bit_size: BitSize::Field,
        },
        BrilligOpcode::JumpIfNot {
            condition: MemoryAddress::direct(3),
            location: 17,
        },
        BrilligOpcode::JumpIf {
            condition: MemoryAddress::relative(3),
            location: 18,
        },
        BrilligOpcode::Jump { location: 19 },
        BrilligOpcode::CalldataCopy {
            destination_address: MemoryAddress::direct(1),
            size_address: MemoryAddress::direct(2),
            offset_address: MemoryAddress::direct(3),
        },
        BrilligOpcode::Call { location: 20 },
        BrilligOpcode::Const {
            destination: MemoryAddress::direct(4),
            bit_size: BitSize::Field,
            value: Field254 { low: 42, high: 0 },
        },
        BrilligOpcode::IndirectConst {
            destination_pointer: MemoryAddress::direct(5),
            bit_size: BitSize::Integer(IntegerBitSize::U8),
            value: Field254 { low: 7, high: 1 },
        },
        BrilligOpcode::Return,
        BrilligOpcode::ForeignCall {
            function: String::from("get_n\u{00e9}\u{1F600}"),
            destinations: vec![ValueOrArray::MemoryAddress(MemoryAddress::direct(1))],
            destination_value_types: vec![HeapValueType::field()],
            inputs: vec![
                ValueOrArray::HeapArray(HeapArray {
                    pointer: MemoryAddress::direct(2),
                    size: 3,
                }),
                ValueOrArray::HeapVector(HeapVector {
                    pointer: MemoryAddress::direct(4),
                    size: MemoryAddress::direct(5),
                }),
            ],
            input_value_types: vec![
                HeapValueType::Array {
                    value_types: vec![HeapValueType::field()],
                    size: 3,
                },
                HeapValueType::Vector {
                    value_types: vec![
                        HeapValueType::Simple(BitSize::Integer(IntegerBitSize::U1)),
                    ],
                },
            ],
        },
        BrilligOpcode::Mov {
            destination: MemoryAddress::direct(6),
            source: MemoryAddress::direct(7),
        },
        BrilligOpcode::ConditionalMov {
            destination: MemoryAddress::direct(1),
            source_a: MemoryAddress::direct(2),
            source_b: MemoryAddress::direct(3),
            condition: MemoryAddress::direct(4),
        },
        BrilligOpcode::Load {
            destination: MemoryAddress::direct(8),
            source_pointer: MemoryAddress::direct(9),
        },
        BrilligOpcode::Store {
            destination_pointer: MemoryAddress::direct(10),
            source: MemoryAddress::direct(11),
        },
        BrilligOpcode::BlackBox(BlackBoxOp { id: 5 }),
        BrilligOpcode::Trap {
            revert_data: HeapVector {
                pointer: MemoryAddress::direct(0),
                size: MemoryAddress::direct(1),
            },
        },
        BrilligOpcode::Stop {
            return_data: HeapVector {
                pointer: MemoryAddress::direct(2),
                size: MemoryAddress::direct(3),
            },
        },
    ];
    for op in ops {
        let mut buf = Vec::new();
        op.encode(&mut buf);
        let (decoded, end) = BrilligOpcode::<Field254>::decode(&buf, 0).unwrap();
        assert_eq!(decoded, op);
        assert_eq!(end, buf.len());
    }
}

#[test]
fn instruction_shape_scenario() {
    let int_op: BrilligOpcode<Field254> = BrilligOpcode::BinaryIntOp {
        destination: MemoryAddress::Direct(2),
        op: BinaryIntOp::Add,
        bit_size: IntegerBitSize::U32,
        lhs: MemoryAddress::Direct(0),
        rhs: MemoryAddress::Direct(1),
    };
    let mut buf = Vec::new();
    int_op.encode(&mut buf);
    let (decoded, _) = BrilligOpcode::<Field254>::decode(&buf, 0).unwrap();
    assert_eq!(decoded, int_op);
    assert!(matches!(decoded, BrilligOpcode::BinaryIntOp { .. }));

    // A field instruction on the same addresses is told apart by its tag.
    let field_op: BrilligOpcode<Field254> = BrilligOpcode::BinaryFieldOp {
        destination: MemoryAddress::Direct(2),
        op: BinaryFieldOp::Add,
        lhs: MemoryAddress::Direct(0),
        rhs: MemoryAddress::Direct(1),
    };
    let mut field_buf = Vec::new();
    field_op.encode(&mut field_buf);
    assert_ne!(buf[0], field_buf[0]);
    let (decoded_field, _) = BrilligOpcode::<Field254>::decode(&field_buf, 0).unwrap();
    assert!(matches!(decoded_field, BrilligOpcode::BinaryFieldOp { .. }));
    assert_ne!(decoded_field, int_op);
}

#[test]
fn decoding_rejects_malformed_bytes() {
    // An unknown tag.
    assert_eq!(MemoryAddress::decode(&[255u8, 0, 0, 0, 0, 0, 0, 0, 0], 0), None);
    assert_eq!(BrilligOpcode::<Field254>::decode(&[200u8], 0), None);
    // A truncated payload.
    let mut buf = Vec::new();
    MemoryAddress::direct(77).encode(&mut buf);
    buf.pop();
    assert_eq!(MemoryAddress::decode(&buf, 0), None);
    // An empty input.
    assert_eq!(IntegerBitSize::decode(&[], 0), None);
}

#[test]
fn string_codec_keeps_characters() {
    // Would fail if character decoding handed raw numbers through unchanged
    // or dropped non-ASCII characters.
    let op: BrilligOpcode<Field254> = BrilligOpcode::ForeignCall {
        function: String::from("\u{00e9}\u{03b1}\u{1F600}x"),
        destinations: vec![],
        destination_value_types: vec![],
        inputs: vec![],
        input_value_types: vec![],
    };
    let mut buf = Vec::new();
    op.encode(&mut buf);
    let (decoded, end) = BrilligOpcode::<Field254>::decode(&buf, 0).unwrap();
    assert_eq!(end, buf.len());
    match decoded {
        BrilligOpcode::ForeignCall { function, .. } => {
            assert_eq!(function, "\u{00e9}\u{03b1}\u{1F600}x");
        }
        _ => panic!("wrong instruction tag"),
    }
}

#[test]
fn generator_is_deterministic_and_encodable() {
    let a = HeapValueType::generate(12345, 3, 3);
    let b = HeapValueType::generate(12345, 3, 3);
    assert_eq!(a, b);
    let c = HeapValueType::generate(54321, 2, 2);
    // A generated shape goes through the codec unchanged.
    for shape in [a, c] {
        let mut buf = Vec::new();
        shape.encode(&mut buf);
        assert_eq!(HeapValueType::decode(&buf, 0), Some((shape, buf.len())));
    }
}

#[test]
fn generator_depth_zero_is_simple() {
    for seed in 0..32u64 {
        let shape = HeapValueType::generate(seed, 0, 5);
        assert!(matches!(shape, HeapValueType::Simple(_)));
    }
}

#[test]
fn encoding_is_deterministic() {
    let op: BrilligOpcode<Field254> = BrilligOpcode::Stop {
        return_data: HeapVector {
            pointer: MemoryAddress::direct(2),
            size: MemoryAddress::direct(3),
        },
    };
    let mut one = Vec::new();
    let mut two = Vec::new();
    op.encode(&mut one);
    op.clone().encode(&mut two);
    assert_eq!(one, two);
}

#[test]
fn decode_at_offset() {
    // Two instructions in a row decode one after the other.
    let first: BrilligOpcode<Field254> = BrilligOpcode::Jump { location: 3 };
    let second: BrilligOpcode<Field254> = BrilligOpcode::Return;
    let mut buf = Vec::new();
    first.encode(&mut buf);
    second.encode(&mut buf);
    let (d1, mid) = BrilligOpcode::<Field254>::decode(&buf, 0).unwrap();
    let (d2, end) = BrilligOpcode::<Field254>::decode(&buf, mid).unwrap();
    assert_eq!(d1, first);
    assert_eq!(d2, second);
    assert_eq!(end, buf.len());
}
