use adin1110::register::Registers;
use adin1110::transaction::{Operation, Transaction};
use adin1110::transport::Transport;
use adin1110::{Error, ADIN1110};

/// A transport that answers every exchange with the same bytes, or fails,
/// and keeps what it was sent.
struct Stub {
    reply: Vec<u8>,
    fail: bool,
    sent: Vec<Vec<u8>>,
}

impl Stub {
    fn replying(echo: u32, payload: &[u32]) -> Stub {
        let mut reply: Vec<u8> = vec![0xaa, 0xbb, 0xcc, 0xdd];
        reply.extend_from_slice(&echo.to_be_bytes());
        for word in payload {
            reply.extend_from_slice(&word.to_be_bytes());
        }
        Stub { reply, fail: false, sent: Vec::new() }
    }

    fn failing(echo: u32, payload: &[u32]) -> Stub {
        let mut stub = Stub::replying(echo, payload);
        stub.fail = true;
        stub
    }
}

impl Transport for &mut Stub {
    type Error = ();

    fn transfer(&mut self, buffer: &mut [u8]) -> Result<(), ()> {
        self.sent.push(buffer.to_vec());
        for (slot, byte) in buffer.iter_mut().zip(self.reply.iter()) {
            *slot = *byte;
        }
        if self.fail {
            Err(())
        } else {
            Ok(())
        }
    }
}

#[test]
fn get_idver_returns_the_register() {
    let mut stub = Stub::replying(0x1000_0000, &[0x0123_4567]);
    let mut driver = ADIN1110::new(&mut stub);
    assert_eq!(driver.get_idver(), Ok(0x0123_4567));
}

#[test]
fn get_idver_sends_one_frame_for_address_0() {
    let mut stub = Stub::replying(0x1000_0000, &[0x0123_4567]);
    assert_eq!(ADIN1110::new(&mut stub).get_idver(), Ok(0x0123_4567));
    assert_eq!(stub.sent, vec![vec![0x10, 0, 0, 0, 0, 0, 0, 0, 0, 0, 0, 0]]);
}

#[test]
fn get_phyid_sends_one_frame_for_address_1() {
    let mut stub = Stub::replying(0x1000_0101, &[0x0283_bc91]);
    assert_eq!(ADIN1110::new(&mut stub).get_phyid(), Ok(0x0283_bc91));
    assert_eq!(stub.sent, vec![vec![0x10, 0, 0x01, 0x01, 0, 0, 0, 0, 0, 0, 0, 0]]);
}

#[test]
fn get_capability_sends_one_frame_for_address_2() {
    let mut stub = Stub::replying(0x1000_0201, &[0x0000_06c3]);
    assert_eq!(ADIN1110::new(&mut stub).get_capability(), Ok(0x0000_06c3));
    assert_eq!(stub.sent, vec![vec![0x10, 0, 0x02, 0x01, 0, 0, 0, 0, 0, 0, 0, 0]]);
}

#[test]
fn get_capability_rejected_by_the_device() {
    let mut stub = Stub::replying(0x5000_0201, &[0x0000_06c3]);
    assert_eq!(ADIN1110::new(&mut stub).get_capability(), Err(Error::HeaderBadError));
}

#[test]
fn get_idver_rejected_by_the_device() {
    let mut stub = Stub::replying(0x4000_0000, &[0x0123_4567]);
    assert_eq!(ADIN1110::new(&mut stub).get_idver(), Err(Error::HeaderBadError));
}

#[test]
fn get_phyid_rejected_by_the_device() {
    let mut stub = Stub::replying(0x5000_0101, &[0x0283_bc91]);
    assert_eq!(ADIN1110::new(&mut stub).get_phyid(), Err(Error::HeaderBadError));
}

#[test]
fn getters_report_a_failed_exchange() {
    let mut stub = Stub::failing(0x1000_0000, &[0x0123_4567]);
    {
        let mut driver = ADIN1110::new(&mut stub);
        assert_eq!(driver.get_idver(), Err(Error::IOError));
        assert_eq!(driver.get_phyid(), Err(Error::IOError));
        assert_eq!(driver.get_capability(), Err(Error::IOError));
    }
    assert_eq!(stub.sent.len(), 3);
}

#[test]
fn failed_exchange_wins_over_a_rejected_header() {
    let mut stub = Stub::failing(0x5000_0000, &[0x0123_4567]);
    assert_eq!(ADIN1110::new(&mut stub).get_idver(), Err(Error::IOError));
}

#[test]
fn read_register_reads_each_named_register() {
    let mut stub = Stub::replying(0x1000_0000, &[42]);
    {
        let mut driver = ADIN1110::new(&mut stub);
        assert_eq!(driver.read_register(Registers::IdVer), Ok(42));
        assert_eq!(driver.read_register(Registers::PhyId), Ok(42));
        assert_eq!(driver.read_register(Registers::Capability), Ok(42));
    }
    let addresses: Vec<u8> = stub.sent.iter().map(|frame| frame[2]).collect();
    assert_eq!(addresses, vec![0, 1, 2]);
}

#[test]
fn getters_are_execute_with_the_register_address() {
    let mut stub = Stub::replying(0x1000_0201, &[0x0000_06c3]);
    let transaction = Transaction::new(Operation::Read, 0x0002, 0, 1, None).unwrap();
    let by_execute = ADIN1110::new(&mut stub).execute(&transaction);
    let by_getter = ADIN1110::new(&mut stub).get_capability();
    assert_eq!(by_execute, Ok(vec![0x0000_06c3]));
    assert_eq!(by_getter, Ok(0x0000_06c3));
    assert_eq!(stub.sent.len(), 2);
    assert_eq!(stub.sent[0], stub.sent[1]);
}

#[test]
fn execute_reads_several_registers() {
    let mut stub = Stub::replying(0x1100_1005, &[1, 2, 3]);
    let transaction = Transaction::new(Operation::Read, 0x0010, 1, 3, None).unwrap();
    assert_eq!(ADIN1110::new(&mut stub).execute(&transaction), Ok(vec![1, 2, 3]));
    assert_eq!(stub.sent.len(), 1);
    assert_eq!(stub.sent[0].len(), 20);
    assert_eq!(&stub.sent[0][..4], &[0x11, 0x00, 0x10, 0x05]);
}

#[test]
fn execute_writes_the_payload() {
    let mut stub = Stub::replying(0x3000_3002, &[0, 0]);
    let transaction = Transaction::new(
        Operation::Write,
        0x0030,
        0,
        2,
        Some(vec![0x0123_4567, 0x89ab_cdef]),
    ).unwrap();
    assert_eq!(ADIN1110::new(&mut stub).execute(&transaction), Ok(vec![]));
    assert_eq!(
        stub.sent,
        vec![vec![
            0x30, 0x00, 0x30, 0x02, 0, 0, 0, 0, 0x01, 0x23, 0x45, 0x67, 0x89, 0xab, 0xcd, 0xef,
        ]]
    );
}

#[test]
fn execute_reports_a_rejected_write() {
    let mut stub = Stub::replying(0x7000_3002, &[0, 0]);
    let transaction = Transaction::new(Operation::Write, 0x0030, 0, 2, Some(vec![1, 2])).unwrap();
    assert_eq!(ADIN1110::new(&mut stub).execute(&transaction), Err(Error::HeaderBadError));
}

#[test]
fn execute_reports_a_failed_exchange() {
    let mut stub = Stub::failing(0x1100_1005, &[1, 2, 3]);
    let transaction = Transaction::new(Operation::Read, 0x0010, 1, 3, None).unwrap();
    assert_eq!(ADIN1110::new(&mut stub).execute(&transaction), Err(Error::IOError));
    assert_eq!(stub.sent.len(), 1);
}

#[test]
fn a_failed_call_can_be_made_again() {
    let mut stub = Stub::failing(0x1000_0000, &[0x0123_4567]);
    assert_eq!(ADIN1110::new(&mut stub).get_idver(), Err(Error::IOError));
    stub.fail = false;
    assert_eq!(ADIN1110::new(&mut stub).get_idver(), Ok(0x0123_4567));
    assert_eq!(stub.sent[0], stub.sent[1]);
}
