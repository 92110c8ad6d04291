use dispatch_core::codec::{put_u64_be, ByteReader};
use dispatch_core::serialisation::{Deserialisable, Deserialiser, SerError, Serialiser};

#[derive(PartialEq, Debug, Clone)]
struct Test1 {
    i: u64,
}

struct T1Ser;

impl Serialiser<Test1> for T1Ser {
    fn id(&self) -> u64 {
        1
    }

    fn size_hint(&self) -> Option<usize> {
        Some(88)
    }

    fn serialise(&self, v: &Test1, buf: &mut Vec<u8>) -> Result<(), SerError> {
        put_u64_be(buf, v.i);
        let mut i: u64 = 0;
        while i < 10 {
            put_u64_be(buf, i);
            i += 1;
        }
        Ok(())
    }
}

impl Deserialiser<Test1> for T1Ser {
    fn deserialise(buf: &mut ByteReader) -> Result<Test1, SerError> {
        if buf.remaining_len() < 8 {
            return Err(SerError::InvalidData("buffer holds no u64".to_string()));
        }
        let i = buf.get_u64_be();
        Ok(Test1 { i })
    }
}

#[test]
fn trivial_deser_equivalence() {
    let t1 = Test1 { i: 42 };
    let t1c = t1.clone();

    match Deserialisable::<Test1>::get_deserialised(t1) {
        Ok(t2) => assert_eq!(t1c, t2),
        Err(e) => panic!("{:?}", e),
    }

    let t1b = Box::new(t1c.clone());

    match Deserialisable::<Test1>::get_deserialised(t1b) {
        Ok(t2) => assert_eq!(t1c, t2),
        Err(e) => panic!("{:?}", e),
    }
}

#[test]
fn ser_deser_equivalence() {
    let t1 = Test1 { i: 42 };
    let mut mbuf: Vec<u8> = Vec::with_capacity(64);
    let t1c = t1.clone();
    mbuf.reserve(T1Ser.size_hint().unwrap());
    T1Ser
        .serialise(&t1, &mut mbuf)
        .expect("should have serialised!");
    assert_eq!(mbuf.len(), 88);
    let mut buf = ByteReader::new(mbuf);
    let t1_res = T1Ser::deserialise(&mut buf);
    match t1_res {
        Ok(t2) => assert_eq!(t1c, t2),
        Err(e) => panic!("{:?}", e),
    }
}

#[test]
fn deserialise_reports_short_buffer() {
    let mut buf = ByteReader::new(vec![1, 2, 3]);
    match T1Ser::deserialise(&mut buf) {
        Err(SerError::InvalidData(_)) => (),
        other => panic!("expected InvalidData, got {:?}", other),
    }
}
