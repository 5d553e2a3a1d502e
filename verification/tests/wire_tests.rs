use ray_tracer::error::MatrixError;
use ray_tracer::matrix::Matrix;
use ray_tracer::scalar::Scalar;
use ray_tracer::wire::Endian;

fn wire_matrix(values: &[f32]) -> Matrix {
    Matrix::from_scalars(values.iter().map(|x| Scalar::from_bits(x.to_bits())).collect()).unwrap()
}

fn wire_ramp(count: usize) -> Vec<f32> {
    (0..count).map(|k| k as f32 * 0.37 - 2.0).collect()
}

fn native_bytes(values: &[f32]) -> Vec<u8> {
    values.iter().flat_map(|x| x.to_ne_bytes()).collect()
}

#[test]
fn native_is_the_order_of_the_machine() {
    let little = u16::from_ne_bytes([1, 0]) == 1;
    assert_eq!(Endian::native() == Endian::Little, little);
    assert_eq!(Endian::native() == Endian::Big, !little);
}

#[test]
fn from_probe_tells_the_two_orders() {
    assert_eq!(Endian::from_probe(1), Endian::Little);
    assert_eq!(Endian::from_probe(256), Endian::Big);
    assert_eq!(Endian::from_probe(u16::from_le_bytes([1, 0])), Endian::Little);
    assert_eq!(Endian::from_probe(u16::from_be_bytes([1, 0])), Endian::Big);
    assert_eq!(Endian::from_probe(u16::from_ne_bytes([1, 0])), Endian::native());
}

#[test]
fn read_scalar_in_both_orders() {
    let bytes = [0x00u8, 0x00, 0x80, 0x3f, 0xaa];
    assert_eq!(Endian::Little.read_scalar(&bytes).to_bits(), 0x3f80_0000);
    assert_eq!(Endian::Big.read_scalar(&bytes).to_bits(), 0x0000_803f);
    let bytes = [0x12u8, 0x34, 0x56, 0x78];
    assert_eq!(Endian::Little.read_scalar(&bytes).to_bits(), 0x7856_3412);
    assert_eq!(Endian::Big.read_scalar(&bytes).to_bits(), 0x1234_5678);
}

#[test]
fn write_scalar_in_both_orders() {
    let one = Scalar::from_bits(1.0f32.to_bits());
    assert_eq!(Endian::Little.write_scalar(one), [0x00, 0x00, 0x80, 0x3f]);
    assert_eq!(Endian::Big.write_scalar(one), [0x3f, 0x80, 0x00, 0x00]);
    let x = Scalar::from_bits(0x1234_5678);
    assert_eq!(Endian::Little.write_scalar(x), [0x78, 0x56, 0x34, 0x12]);
    assert_eq!(Endian::Big.write_scalar(x), [0x12, 0x34, 0x56, 0x78]);
}

#[test]
fn to_bytes_is_the_native_layout() {
    for size in 2..=4usize {
        let values = wire_ramp(size * size);
        assert_eq!(wire_matrix(&values).to_bytes(), native_bytes(&values));
    }
}

#[test]
fn to_bytes_in_has_no_header() {
    let m = wire_matrix(&[1.0, 2.0, 3.0, 4.0]);
    assert_eq!(
        m.to_bytes_in(Endian::Little),
        vec![0, 0, 0x80, 0x3f, 0, 0, 0, 0x40, 0, 0, 0x40, 0x40, 0, 0, 0x80, 0x40]
    );
    assert_eq!(
        m.to_bytes_in(Endian::Big),
        vec![0x3f, 0x80, 0, 0, 0x40, 0, 0, 0, 0x40, 0x40, 0, 0, 0x40, 0x80, 0, 0]
    );
}

#[test]
fn from_bytes_reads_the_native_layout() {
    for size in 2..=4usize {
        let values = wire_ramp(size * size);
        let m = Matrix::from_bytes(&native_bytes(&values)).unwrap();
        assert_eq!(m.size(), size);
        assert_eq!(m, wire_matrix(&values));
    }
}

#[test]
fn from_bytes_in_reads_each_order() {
    let little = [0u8, 0, 0x80, 0x3f, 0, 0, 0, 0x40, 0, 0, 0x40, 0x40, 0, 0, 0x80, 0x40];
    assert_eq!(
        Matrix::from_bytes_in(Endian::Little, &little).unwrap(),
        wire_matrix(&[1.0, 2.0, 3.0, 4.0])
    );
    let mut big = little;
    for word in big.chunks_mut(4) {
        word.reverse();
    }
    assert_eq!(
        Matrix::from_bytes_in(Endian::Big, &big).unwrap(),
        wire_matrix(&[1.0, 2.0, 3.0, 4.0])
    );
    assert_ne!(
        Matrix::from_bytes_in(Endian::Big, &little).unwrap(),
        wire_matrix(&[1.0, 2.0, 3.0, 4.0])
    );
}

#[test]
fn from_bytes_rejects_other_counts() {
    for count in [0usize, 1, 2, 3, 5, 8, 10, 15, 17, 25] {
        let bytes = vec![0u8; count * 4];
        assert_eq!(Matrix::from_bytes(&bytes), Err(MatrixError::InvalidMatrix), "{count}");
        assert_eq!(
            Matrix::from_bytes_in(Endian::Big, &bytes),
            Err(MatrixError::InvalidMatrix),
            "{count}"
        );
    }
    assert_eq!(Matrix::from_bytes(&[0u8; 15]), Err(MatrixError::InvalidMatrix));
}

#[test]
fn from_bytes_leaves_out_a_broken_tail() {
    let mut bytes = native_bytes(&[1.0, 2.0, 3.0, 4.0]);
    bytes.push(0xff);
    bytes.push(0xff);
    assert_eq!(Matrix::from_bytes(&bytes).unwrap(), wire_matrix(&[1.0, 2.0, 3.0, 4.0]));
}

#[test]
fn bytes_round_trip_is_bit_identical() {
    for size in 2..=4usize {
        let m = wire_matrix(&wire_ramp(size * size));
        assert_eq!(Matrix::from_bytes(&m.to_bytes()).unwrap(), m);
        for order in [Endian::Little, Endian::Big] {
            assert_eq!(Matrix::from_bytes_in(order, &m.to_bytes_in(order)).unwrap(), m);
        }
    }
}

#[test]
fn bytes_round_trip_keeps_odd_patterns() {
    let m = Matrix::from_scalars(vec![
        Scalar::from_bits(0x7fc0_0001),
        Scalar::from_bits(0xffff_ffff),
        Scalar::from_bits(0x8000_0000),
        Scalar::from_bits(0x0000_0001),
    ])
    .unwrap();
    let back = Matrix::from_bytes(&m.to_bytes()).unwrap();
    assert_eq!(back.values(), m.values());
}
