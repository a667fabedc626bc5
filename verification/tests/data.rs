use mulperc::classifier::{build_label_map, distinct_labels, label_index, one_hot};
use mulperc::gzip::{copy_memory, GzipData};
use mulperc::map_in_place::MapInPlace;
use mulperc::mnist::{digit_label, MnistDigits};
use mulperc::activation_func::Tanh;
use mulperc::multilayer_perceptron::{LayerSnapshot, MultilayerPerceptron, NetFile, NetworkSnapshot};
use mulperc::scalar::Scalar;
use mulperc::util::DontCare;
use mulperc::validators::str_is_integer;
use mulperc::window_gui::{MnistPreviewState, WithPath};
use std::io::Write;

#[derive(Clone, Copy, Debug, PartialEq)]
struct R(f64);

impl Scalar for R {
    // the spec-level counterparts of the operations; never executed, they
    // restate the same arithmetic
    fn zero_spec() -> R {
        R(0.0)
    }
    fn one_spec() -> R {
        R(1.0)
    }
    fn from_count_spec(n: usize) -> R {
        R(n as f64)
    }
    fn add_spec(self, other: R) -> R {
        R(self.0 + other.0)
    }
    fn sub_spec(self, other: R) -> R {
        R(self.0 - other.0)
    }
    fn mul_spec(self, other: R) -> R {
        R(self.0 * other.0)
    }
    fn div_spec(self, other: R) -> R {
        R(self.0 / other.0)
    }
    fn neg_spec(self) -> R {
        R(-self.0)
    }
    fn exp_spec(self) -> R {
        R(self.0.exp())
    }
    fn tanh_spec(self) -> R {
        R(self.0.tanh())
    }
    fn cosh_spec(self) -> R {
        R(self.0.cosh())
    }
    fn sqrt_spec(self) -> R {
        R(self.0.sqrt())
    }
    fn ge_spec(self, other: R) -> bool {
        self.0 >= other.0
    }

    fn zero() -> R {
        R(0.0)
    }
    fn one() -> R {
        R(1.0)
    }
    fn from_count(n: usize) -> R {
        R(n as f64)
    }
    fn plus(&self, other: &R) -> R {
        R(self.0 + other.0)
    }
    fn minus(&self, other: &R) -> R {
        R(self.0 - other.0)
    }
    fn times(&self, other: &R) -> R {
        R(self.0 * other.0)
    }
    fn div(&self, other: &R) -> R {
        R(self.0 / other.0)
    }
    fn neg(&self) -> R {
        R(-self.0)
    }
    fn exp(&self) -> R {
        R(self.0.exp())
    }
    fn tanh(&self) -> R {
        R(self.0.tanh())
    }
    fn cosh(&self) -> R {
        R(self.0.cosh())
    }
    fn sqrt(&self) -> R {
        R(self.0.sqrt())
    }
    fn ge(&self, other: &R) -> bool {
        self.0 >= other.0
    }
}

fn be32(v: u32) -> Vec<u8> {
    vec![
        (v >> 24) as u8,
        (v >> 16) as u8,
        (v >> 8) as u8,
        v as u8,
    ]
}

fn label_file(magic: u32, count: u32, labels: &[u8]) -> Vec<u8> {
    let mut out = be32(magic);
    out.extend(be32(count));
    out.extend_from_slice(labels);
    out
}

fn image_file(magic: u32, count: u32, rows: u32, cols: u32, pixels: &[u8]) -> Vec<u8> {
    let mut out = be32(magic);
    out.extend(be32(count));
    out.extend(be32(rows));
    out.extend(be32(cols));
    out.extend_from_slice(pixels);
    out
}

#[test]
fn gzip_data_cursor() {
    let mut data = GzipData::from_buf(vec![1, 2, 3, 4, 5]);
    assert_eq!(data.len(), 5);
    assert_eq!(data.buf(), &[1, 2, 3, 4, 5]);
    let mut buf = vec![0u8; 2];
    assert_eq!(data.read(&mut buf), 2);
    assert_eq!(buf, vec![1, 2]);
    assert_eq!(data.iter(), vec![3, 4, 5]);
    assert_eq!(data.buf(), &[3, 4, 5]);
    let mut big = vec![9u8; 10];
    assert_eq!(data.read(&mut big), 3);
    assert_eq!(&big[..3], &[3, 4, 5]);
    assert_eq!(&big[3..], &[9u8; 7][..]);
    assert_eq!(data.read(&mut big), 0);
    assert_eq!(data.len(), 5);
    assert_eq!(data.into_bytes(), vec![1, 2, 3, 4, 5]);
}

#[test]
fn copy_memory_copies_prefix() {
    let mut dst = vec![0u8; 4];
    let src = vec![7u8, 8, 9];
    assert_eq!(copy_memory(&mut dst, &src[..], 10), 3);
    assert_eq!(dst, vec![7, 8, 9, 0]);
    let mut dst = vec![0u8; 2];
    assert_eq!(copy_memory(&mut dst, &src[..], 10), 2);
    assert_eq!(dst, vec![7, 8]);
    let mut dst = vec![0u8; 4];
    assert_eq!(copy_memory(&mut dst, &src[..], 1), 1);
    assert_eq!(dst, vec![7, 0, 0, 0]);
}

#[test]
fn gunzip_round_trip() {
    let original = b"some bytes worth compressing, compressing, compressing".to_vec();
    let mut encoder =
        flate2::write::GzEncoder::new(Vec::new(), flate2::Compression::default());
    encoder.write_all(&original).unwrap();
    let compressed = encoder.finish().unwrap();
    assert_ne!(compressed, original);
    let data = GzipData::from_gzip_bytes(&compressed).unwrap();
    assert_eq!(data.into_bytes(), original);
}

#[test]
fn gunzip_rejects_garbage() {
    let garbage = vec![1u8, 2, 3, 4];
    assert!(GzipData::from_gzip_bytes(&garbage).is_err());
}

#[test]
fn from_high_endian_value() {
    assert_eq!(MnistDigits::from_high_endian(&[1, 2, 3, 4]), 0x01020304);
    assert_eq!(MnistDigits::from_high_endian(&[]), 0);
    assert_eq!(MnistDigits::from_high_endian(&[0, 0, 8, 1]), 2049);
    assert_eq!(
        MnistDigits::from_high_endian(&[0xff; 8]),
        u64::MAX
    );
}

#[test]
fn read_u32_consumes_four_bytes() {
    let mut data = GzipData::from_buf(vec![0, 0, 8, 1, 42]);
    assert_eq!(MnistDigits::read_u32(&mut data), Ok(2049));
    assert_eq!(data.buf(), &[42]);
    assert_eq!(
        MnistDigits::read_u32(&mut data),
        Err("Could not read data.")
    );
}

#[test]
fn read_labels_accepts_wellformed() {
    let data = GzipData::from_buf(label_file(2049, 3, &[1, 5, 9]));
    assert_eq!(MnistDigits::read_labels(data), Ok(vec![1, 5, 9]));
}

#[test]
fn read_labels_rejects_malformed() {
    let data = GzipData::from_buf(label_file(2048, 3, &[1, 5, 9]));
    assert_eq!(MnistDigits::read_labels(data), Err("Invalid magic number."));
    let data = GzipData::from_buf(label_file(2049, 4, &[1, 5, 9]));
    assert_eq!(
        MnistDigits::read_labels(data),
        Err("Invalid number of items.")
    );
    let data = GzipData::from_buf(label_file(2049, 3, &[1, 10, 9]));
    assert_eq!(
        MnistDigits::read_labels(data),
        Err("Found invalid values for labels.")
    );
    let data = GzipData::from_buf(vec![0, 0]);
    assert_eq!(MnistDigits::read_labels(data), Err("Could not read data."));
}

#[test]
fn read_examples_scales_pixels() {
    let mut pixels = vec![0u8; 784];
    pixels[0] = 255;
    pixels[1] = 51;
    let data = GzipData::from_buf(image_file(2051, 1, 28, 28, &pixels));
    let examples: Vec<Vec<R>> = MnistDigits::read_examples(data).unwrap();
    assert_eq!(examples.len(), 1);
    assert_eq!(examples[0].len(), 784);
    assert_eq!(examples[0][0], R(1.0));
    assert_eq!(examples[0][1], R(51.0 / 255.0));
    assert_eq!(examples[0][2], R(0.0));
}

#[test]
fn read_examples_rejects_malformed() {
    let pixels = vec![0u8; 784];
    let data = GzipData::from_buf(image_file(2052, 1, 28, 28, &pixels));
    assert_eq!(
        MnistDigits::read_examples::<R>(data),
        Err("Invalid magic number.")
    );
    let data = GzipData::from_buf(image_file(2051, 1, 28, 27, &pixels));
    assert_eq!(
        MnistDigits::read_examples::<R>(data),
        Err("Invalid number of rows or columns.")
    );
    let data = GzipData::from_buf(image_file(2051, 2, 28, 28, &pixels));
    assert_eq!(
        MnistDigits::read_examples::<R>(data),
        Err("Could not read data.")
    );
    let data = GzipData::from_buf(be32(2051));
    assert_eq!(
        MnistDigits::read_examples::<R>(data),
        Err("Could not read data.")
    );
}

#[test]
fn dataset_pairs_examples_with_labels() {
    let mut pixels = vec![0u8; 2 * 784];
    pixels[784] = 255;
    let vectors = GzipData::from_buf(image_file(2051, 2, 28, 28, &pixels));
    let labels = GzipData::from_buf(label_file(2049, 2, &[3, 7]));
    let pairs: Vec<(Vec<R>, String)> = MnistDigits::from(vectors, labels).unwrap();
    assert_eq!(pairs.len(), 2);
    assert_eq!(pairs[0].1, "3");
    assert_eq!(pairs[1].1, "7");
    assert_eq!(pairs[1].0[0], R(1.0));
}

#[test]
fn dataset_error_prefers_labels() {
    let pixels = vec![0u8; 784];
    let vectors = GzipData::from_buf(image_file(2051, 1, 28, 28, &pixels));
    let labels = GzipData::from_buf(label_file(1, 1, &[3]));
    assert_eq!(
        MnistDigits::from::<R>(vectors, labels),
        Err("Invalid magic number.")
    );
}

#[test]
fn digit_labels_spell_digits() {
    let expected = ["0", "1", "2", "3", "4", "5", "6", "7", "8", "9"];
    for d in 0u8..10 {
        assert_eq!(digit_label(d), expected[d as usize]);
    }
}

#[test]
fn dataset_path_prefix() {
    assert_eq!(
        MnistDigits::path("train-images-idx3-ubyte.gz"),
        Ok("res/mnist/train-images-idx3-ubyte.gz".to_string())
    );
}

#[test]
fn str_is_integer_exact() {
    assert!(str_is_integer("0".to_string()).is_ok());
    assert!(str_is_integer("123".to_string()).is_ok());
    assert!(str_is_integer("+42".to_string()).is_ok());
    assert!(str_is_integer("-0".to_string()).is_ok());
    assert!(str_is_integer("007".to_string()).is_ok());
    assert!(str_is_integer("9223372036854775807".to_string()).is_ok());
    assert!(str_is_integer("-9223372036854775808".to_string()).is_ok());
    assert!(str_is_integer("9223372036854775808".to_string()).is_err());
    assert!(str_is_integer("-9223372036854775809".to_string()).is_err());
    assert!(str_is_integer("".to_string()).is_err());
    assert!(str_is_integer("+".to_string()).is_err());
    assert!(str_is_integer("-".to_string()).is_err());
    assert!(str_is_integer("12a".to_string()).is_err());
    assert!(str_is_integer("a12".to_string()).is_err());
    assert!(str_is_integer(" 12".to_string()).is_err());
    assert!(str_is_integer("1.5".to_string()).is_err());
    assert_eq!(
        str_is_integer("abc".to_string()),
        Err("abc is not an integer".to_string())
    );
}

#[test]
fn label_bookkeeping() {
    let one: Vec<R> = one_hot(1, 3);
    assert_eq!(one, vec![R(0.0), R(1.0), R(0.0)]);

    let labels: Vec<String> = ["cat", "dog", "cat", "bird", "dog"]
        .iter()
        .map(|s| s.to_string())
        .collect();
    let classes = distinct_labels(&labels);
    assert_eq!(classes, vec!["cat", "dog", "bird"]);

    assert_eq!(label_index(&classes, &"dog".to_string()), Some(1));
    assert_eq!(label_index(&classes, &"fish".to_string()), None);

    let map = build_label_map(&classes);
    assert_eq!(map.len(), 3);
    assert_eq!(map[&0], "cat");
    assert_eq!(map[&2], "bird");
}

#[test]
fn test_mip() {
    let x = vec![1u64, 2, 3];
    let y = x.mip(|x| x as f64);
    assert!(y == vec![1.0f64, 2.0, 3.0]);
}

#[test]
fn front_end_state_starts_empty() {
    let w: WithPath<Vec<u8>> = WithPath::new();
    assert!(w.data.is_none());
    assert!(w.path.is_none());
    let preview = MnistPreviewState {
        idx: 0,
        label: "Not loaded".to_string(),
    };
    assert_eq!(preview.idx, 0);
    let _ = DontCare;
}

#[test]
fn net_file_carries_labels() {
    let snap = NetworkSnapshot {
        learning_rate: R(0.1),
        sparsity_params: None,
        layers: vec![LayerSnapshot {
            rows: 3,
            cols: 2,
            weights: vec![R(0.0); 6],
            activation_function: Tanh(R(1.0)).into(),
        }],
    };
    let net = MultilayerPerceptron::from_snapshot(snap).unwrap();
    let classes: Vec<String> = ["0", "1"].iter().map(|s| s.to_string()).collect();
    let file = NetFile(net, build_label_map(&classes));
    assert_eq!(file.1.len(), 2);
    assert_eq!(file.1[&1], "1");
}
