use txkv::conformance;
use txkv::gate::TxGate;

#[test]
fn isolation_ordering() {
    let mut gate = TxGate::new();
    conformance::isolation(&mut gate);
}

#[test]
fn readers_block_writer_until_last_closes() {
    let mut gate = TxGate::new();
    assert!(gate.try_begin_read());
    assert!(gate.try_begin_read());
    assert!(!gate.try_begin_write());
    gate.end_read();
    assert!(!gate.try_begin_write());
    gate.end_read();
    assert!(gate.try_begin_write());
}

#[test]
fn writer_blocks_everything_until_closed() {
    let mut gate = TxGate::new();
    assert!(gate.try_begin_write());
    assert!(!gate.try_begin_write());
    assert!(!gate.try_begin_read());
    gate.end_write();
    assert!(gate.try_begin_read());
    assert!(gate.try_begin_read());
}
