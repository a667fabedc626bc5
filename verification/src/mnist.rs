//! The MNIST dataset reader: big-endian headers, label bytes and pixel
//! payloads, parsed from decompressed idx files.
//!
//! Every parse states exactly which inputs it accepts, what it returns for
//! them, and which malformed input produces which error.

use vstd::prelude::*;

use crate::gzip::GzipData;
use crate::matrix::lemma_col_bound;
use crate::scalar::Scalar;
use vstd::string::StringExecFns;

verus! {

/// The value of a big-endian byte string.
pub open spec fn be_value(s: Seq<u8>) -> nat
    decreases s.len(),
{
    if s.len() == 0 {
        0
    } else {
        be_value(s.drop_last()) * 256 + s.last() as nat
    }
}

/// `256^n`: the number of values `n` bytes can take.
pub open spec fn pow256(n: nat) -> nat
    decreases n,
{
    if n == 0 {
        1
    } else {
        256 * pow256((n - 1) as nat)
    }
}

pub proof fn lemma_pow256_pos(n: nat)
    ensures
        pow256(n) >= 1,
    decreases n,
{
    if n > 0 {
        lemma_pow256_pos((n - 1) as nat);
    }
}

pub proof fn lemma_pow256_monotone(a: nat, b: nat)
    requires
        a <= b,
    ensures
        0 < pow256(a) <= pow256(b),
    decreases b,
{
    lemma_pow256_pos(a);
    if a < b {
        lemma_pow256_monotone(a, (b - 1) as nat);
    }
}

/// A byte string's value fits in its width.
pub proof fn lemma_be_value_bound(s: Seq<u8>)
    ensures
        be_value(s) < pow256(s.len()),
    decreases s.len(),
{
    if s.len() > 0 {
        lemma_be_value_bound(s.drop_last());
    }
}

/// The dataset reader.
pub struct MnistDigits;

/// The message `read_labels` rejects a malformed label file with: the first
/// of its checks that fails names the error.
pub open spec fn label_parse_error(bytes: Seq<u8>) -> Seq<char> {
    if bytes.len() < 4 {
        "Could not read data."@
    } else if be_value(bytes.take(4)) != LABEL_MAGIC {
        "Invalid magic number."@
    } else if bytes.len() < 8 {
        "Could not read data."@
    } else if label_payload(bytes).len() != be_value(bytes.subrange(4, 8)) {
        "Invalid number of items."@
    } else {
        "Found invalid values for labels."@
    }
}

/// The message `read_examples` rejects a malformed image file with.
pub open spec fn example_parse_error(bytes: Seq<u8>) -> Seq<char> {
    if bytes.len() < 4 {
        "Could not read data."@
    } else if be_value(bytes.take(4)) != IMAGE_MAGIC {
        "Invalid magic number."@
    } else if bytes.len() < 16 {
        "Could not read data."@
    } else if !(be_value(bytes.subrange(8, 12)) == 28 && be_value(bytes.subrange(12, 16)) == 28) {
        "Invalid number of rows or columns."@
    } else {
        "Could not read data."@
    }
}

/// The magic number of an idx label file.
pub const LABEL_MAGIC: u32 = 2049;

/// The magic number of an idx image file.
pub const IMAGE_MAGIC: u32 = 2051;

/// The bytes of an idx label file after the magic number and the count.
pub open spec fn label_payload(bytes: Seq<u8>) -> Seq<u8> {
    bytes.skip(8)
}

/// A well-formed decompressed label file: the magic number, then the count,
/// then exactly that many labels, each a digit.
pub open spec fn label_data_ok(bytes: Seq<u8>) -> bool {
    &&& bytes.len() >= 8
    &&& be_value(bytes.take(4)) == LABEL_MAGIC
    &&& label_payload(bytes).len() == be_value(bytes.subrange(4, 8))
    &&& forall|i: int| 0 <= i < label_payload(bytes).len() ==> label_payload(bytes)[i] <= 9
}

/// The pixel bytes of an idx image file after its four header words.
pub open spec fn example_payload(bytes: Seq<u8>) -> Seq<u8> {
    bytes.skip(16)
}

/// A well-formed decompressed image file: the magic number, the count, a
/// 28 by 28 shape, and exactly `count * 784` pixel bytes.
pub open spec fn example_data_ok(bytes: Seq<u8>) -> bool {
    &&& bytes.len() >= 16
    &&& be_value(bytes.take(4)) == IMAGE_MAGIC
    &&& be_value(bytes.subrange(8, 12)) == 28
    &&& be_value(bytes.subrange(12, 16)) == 28
    &&& example_payload(bytes).len() == be_value(bytes.subrange(4, 8)) * 784
}

impl MnistDigits {
    /// The value of the byte string read most-significant first.
    pub fn from_high_endian(arr: &[u8]) -> (r: u64)
        requires
            arr@.len() <= 8,
        ensures
            r == be_value(arr@),
    {
        let n = arr.len();
        let mut acc: u64 = 0;
        let mut i: usize = 0;
        while i < n
            invariant
                n == arr@.len(),
                n <= 8,
                i <= n,
                acc == be_value(arr@.take(i as int)),
            decreases n - i,
        {
            proof {
                lemma_be_value_bound(arr@.take(i as int));
                lemma_pow256_monotone(i as nat, 7);
                reveal_with_fuel(pow256, 9);
                assert(arr@.take(i as int + 1).drop_last() =~= arr@.take(i as int));
                assert(arr@.take(i as int + 1).last() == arr@[i as int]);
            }
            acc = acc * 256 + (arr[i] as u64);
            i = i + 1;
        }
        proof {
            assert(arr@.take(n as int) =~= arr@);
        }
        acc
    }

    /// Read one big-endian 32-bit word, advancing the cursor; fails when
    /// fewer than four bytes remain (consuming what was left).
    pub fn read_u32(src: &mut GzipData) -> (r: Result<u32, &'static str>)
        requires
            old(src).wf(),
        ensures
            final(src).wf(),
            final(src).all_bytes() == old(src).all_bytes(),
            old(src).remaining().len() >= 4 ==> (r matches Ok(v) && v == be_value(
                old(src).remaining().take(4),
            ) && final(src).pos() == old(src).pos() + 4),
            old(src).remaining().len() < 4 ==> ((r matches Err(e) && e@
                == "Could not read data."@) && final(src).pos() == old(src).all_bytes().len()),
    {
        let mut buf: Vec<u8> = vec![0u8, 0u8, 0u8, 0u8];
        let c = src.read(&mut buf);
        if c == 4 {
            proof {
                assert(buf@ =~= old(src).remaining().take(4));
                lemma_be_value_bound(buf@);
                reveal_with_fuel(pow256, 5);
            }
            Ok(Self::from_high_endian(buf.as_slice()) as u32)
        } else {
            Err("Could not read data.")
        }
    }

    /// Parse a decompressed label file.
    ///
    /// Succeeds exactly on well-formed label data, returning the label
    /// bytes; each malformed shape is rejected with its own error.
    pub fn read_labels(data: GzipData) -> (r: Result<Vec<u8>, &'static str>)
        requires
            data.wf(),
        ensures
            r is Ok <==> label_data_ok(data.remaining()),
            r matches Ok(l) ==> l@ == label_payload(data.remaining()),
            r matches Err(e) ==> e@ == label_parse_error(data.remaining()),
    {
        let ghost bytes = data.remaining();
        let mut src = data;
        let magic = match Self::read_u32(&mut src) {
            Ok(v) => v,
            Err(e) => { return Err(e) },
        };
        proof {
            assert(src.remaining() =~= bytes.skip(4));
        }
        if magic != 8 * 256 + 1 {
            return Err("Invalid magic number.");
        }
        let n = match Self::read_u32(&mut src) {
            Ok(v) => v,
            Err(e) => { return Err(e) },
        };
        proof {
            assert(bytes.skip(4).take(4) =~= bytes.subrange(4, 8));
            assert(src.remaining() =~= label_payload(bytes));
        }
        let l = src.iter();
        if l.len() != n as usize {
            proof {
                lemma_be_value_bound(bytes.subrange(4, 8));
                reveal_with_fuel(pow256, 5);
            }
            return Err("Invalid number of items.");
        }
        let count = l.len();
        let mut all_digits = true;
        let mut i: usize = 0;
        while i < count
            invariant
                count == l@.len(),
                i <= count,
                all_digits == (forall|k: int| 0 <= k < i ==> l@[k] <= 9),
            decreases count - i,
        {
            if l[i] > 9 {
                all_digits = false;
            }
            i = i + 1;
        }
        if !all_digits {
            return Err("Found invalid values for labels.");
        }
        Ok(l)
    }

    /// Parse a decompressed image file into one input vector per example.
    ///
    /// Succeeds exactly on well-formed 28 by 28 image data; each returned
    /// vector holds the 784 pixels of one example, every byte scaled by the
    /// scalar type's `1/255`.
    pub fn read_examples<S: Scalar>(data: GzipData) -> (r: Result<Vec<Vec<S>>, &'static str>)
        requires
            data.wf(),
        ensures
            r is Ok <==> example_data_ok(data.remaining()),
            r matches Ok(v) ==> (v@.len() == be_value(data.remaining().subrange(4, 8)) && forall|
                i: int,
            | 0 <= i < v@.len() ==> (#[trigger] v@[i])@.len() == 784),
            r matches Err(e) ==> e@ == example_parse_error(data.remaining()),
    {
        let ghost bytes = data.remaining();
        let mut src = data;
        let magic = match Self::read_u32(&mut src) {
            Ok(v) => v,
            Err(e) => { return Err(e) },
        };
        proof {
            assert(src.remaining() =~= bytes.skip(4));
        }
        if magic != 8 * 256 + 3 {
            return Err("Invalid magic number.");
        }
        let n = match Self::read_u32(&mut src) {
            Ok(v) => v,
            Err(e) => { return Err(e) },
        };
        proof {
            assert(bytes.skip(4).take(4) =~= bytes.subrange(4, 8));
            assert(src.remaining() =~= bytes.skip(8));
        }
        let rows = match Self::read_u32(&mut src) {
            Ok(v) => v,
            Err(e) => { return Err(e) },
        };
        proof {
            assert(bytes.skip(8).take(4) =~= bytes.subrange(8, 12));
            assert(src.remaining() =~= bytes.skip(12));
        }
        let cols = match Self::read_u32(&mut src) {
            Ok(v) => v,
            Err(e) => { return Err(e) },
        };
        proof {
            assert(bytes.skip(12).take(4) =~= bytes.subrange(12, 16));
            assert(src.remaining() =~= example_payload(bytes));
        }
        if rows != 28 || cols != 28 {
            return Err("Invalid number of rows or columns.");
        }
        let v = src.iter();
        if (v.len() as u64) != (n as u64) * 784 {
            return Err("Could not read data.");
        }
        let num: usize = v.len() / 784;
        proof {
            assert(num == n as int) by (nonlinear_arith)
                requires
                    v@.len() == (n as int) * 784,
                    num == v@.len() as int / 784,
            ;
        }
        let mut res: Vec<Vec<S>> = Vec::new();
        let scale = S::from_count(255);
        let total = v.len();
        let mut i: usize = 0;
        while i < num
            invariant
                total == v@.len(),
                v@.len() == num * 784,
                i <= num,
                res@.len() == i,
                forall|k: int| 0 <= k < i ==> (#[trigger] res@[k])@.len() == 784,
            decreases num - i,
        {
            let mut example: Vec<S> = Vec::new();
            let mut j: usize = 0;
            while j < 784
                invariant
                    total == v@.len(),
                    v@.len() == num * 784,
                    i < num,
                    j <= 784,
                    example@.len() == j,
                decreases 784 - j,
            {
                proof {
                    lemma_col_bound(j as int, i as int, 784, num as int);
                }
                let byte = v[i * 784 + j];
                example.push(S::from_count(byte as usize).div(&scale));
                j = j + 1;
            }
            res.push(example);
            i = i + 1;
        }
        Ok(res)
    }

    /// Pair every example with its label, written as a decimal digit.
    ///
    /// Succeeds exactly when both files are well formed; like the wire
    /// format's consumers, it pairs examples and labels up to the shorter
    /// of the two lists.
    pub fn from<S: Scalar>(vectors: GzipData, labels: GzipData) -> (r: Result<
        Vec<(Vec<S>, String)>,
        &'static str,
    >)
        requires
            vectors.wf(),
            labels.wf(),
        ensures
            r is Ok <==> (label_data_ok(labels.remaining()) && example_data_ok(
                vectors.remaining(),
            )),
            !label_data_ok(labels.remaining()) ==> (r matches Err(e) && e@ == label_parse_error(
                labels.remaining(),
            )),
            (label_data_ok(labels.remaining()) && !example_data_ok(vectors.remaining())) ==> (
            r matches Err(e) && e@ == example_parse_error(vectors.remaining())),
            r matches Ok(v) ==> ({
                let labs = label_payload(labels.remaining());
                &&& v@.len() == vstd::math::min(
                    be_value(vectors.remaining().subrange(4, 8)) as int,
                    labs.len() as int,
                )
                &&& forall|i: int|
                    0 <= i < v@.len() ==> ((#[trigger] v@[i]).0@.len() == 784 && v@[i].1@ == seq![
                        digit_char(labs[i]),
                    ])
            }),
    {
        let ghost label_bytes = labels.remaining();
        let label_list = match Self::read_labels(labels) {
            Ok(l) => l,
            Err(e) => { return Err(e) },
        };
        let values = match Self::read_examples::<S>(vectors) {
            Ok(v) => v,
            Err(e) => { return Err(e) },
        };
        let ghost values0 = values@;
        let count = if values.len() < label_list.len() {
            values.len()
        } else {
            label_list.len()
        };
        let mut rest = values;
        let mut out: Vec<(Vec<S>, String)> = Vec::new();
        let mut i: usize = 0;
        while i < count
            invariant
                count <= values0.len(),
                count <= label_list@.len(),
                label_list@ == label_payload(label_bytes),
                forall|k: int| 0 <= k < label_list@.len() ==> label_list@[k] <= 9,
                forall|k: int| 0 <= k < values0.len() ==> (#[trigger] values0[k])@.len() == 784,
                i <= count,
                rest@ == values0.skip(i as int),
                out@.len() == i,
                forall|k: int|
                    0 <= k < i ==> ((#[trigger] out@[k]).0@.len() == 784 && out@[k].1@ == seq![
                        digit_char(label_list@[k]),
                    ]),
            decreases count - i,
        {
            let example = rest.remove(0);
            proof {
                assert(example == values0[i as int]);
            }
            let label = digit_label(label_list[i]);
            out.push((example, label));
            i = i + 1;
        }
        Ok(out)
    }

    /// The location of a bundled dataset file.
    pub fn path(fname: &str) -> (r: Result<String, &'static str>)
        ensures
            r matches Ok(p) && p@ == "res/mnist/"@ + fname@,
    {
        let mut s = String::from_str("res/mnist/");
        s.append(fname);
        Ok(s)
    }
}

/// The decimal digit character for a label value.
pub open spec fn digit_char(d: u8) -> char {
    if d == 0 {
        '0'
    } else if d == 1 {
        '1'
    } else if d == 2 {
        '2'
    } else if d == 3 {
        '3'
    } else if d == 4 {
        '4'
    } else if d == 5 {
        '5'
    } else if d == 6 {
        '6'
    } else if d == 7 {
        '7'
    } else if d == 8 {
        '8'
    } else {
        '9'
    }
}

/// A label as the one-character string of its digit.
pub fn digit_label(d: u8) -> (r: String)
    requires
        d <= 9,
    ensures
        r@ == seq![digit_char(d)],
{
    let s: &str = if d == 0 {
        "0"
    } else if d == 1 {
        "1"
    } else if d == 2 {
        "2"
    } else if d == 3 {
        "3"
    } else if d == 4 {
        "4"
    } else if d == 5 {
        "5"
    } else if d == 6 {
        "6"
    } else if d == 7 {
        "7"
    } else if d == 8 {
        "8"
    } else {
        "9"
    };
    proof {
        reveal_strlit("0");
        reveal_strlit("1");
        reveal_strlit("2");
        reveal_strlit("3");
        reveal_strlit("4");
        reveal_strlit("5");
        reveal_strlit("6");
        reveal_strlit("7");
        reveal_strlit("8");
        reveal_strlit("9");
        assert(s@ =~= seq![digit_char(d)]);
    }
    String::from_str(s)
}

} // verus!
