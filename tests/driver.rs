use ssd1681::cmd::Cmd;
use ssd1681::driver::Ssd1681;
use ssd1681::interface::{keep_waiting, DisplayError, DisplayInterface, Transaction};

fn full_frame() -> Vec<Transaction> {
    vec![
        Transaction::Command(Cmd::SET_RAMXPOS),
        Transaction::Data(vec![0, 24]),
        Transaction::Command(Cmd::SET_RAMYPOS),
        Transaction::Data(vec![0, 0, 199, 0]),
        Transaction::Command(Cmd::SET_RAMXCOUNT),
        Transaction::Data(vec![0]),
        Transaction::Command(Cmd::SET_RAMYCOUNT),
        Transaction::Data(vec![0, 0]),
    ]
}

#[test]
fn init_sequence() {
    let mut d = Ssd1681::new();
    let mut expected = vec![
        Transaction::Reset,
        Transaction::Command(0x12),
        Transaction::WaitUntilIdle,
        Transaction::Command(0x01),
        Transaction::Data(vec![199, 0, 0]),
        Transaction::Command(0x11),
        Transaction::Data(vec![0x03]),
    ];
    expected.extend(full_frame());
    expected.extend(vec![
        Transaction::Command(0x3C),
        Transaction::Data(vec![0x05 | 0x01]),
        Transaction::Command(0x18),
        Transaction::Data(vec![0x80]),
        Transaction::WaitUntilIdle,
    ]);
    assert_eq!(d.take_pending(), expected);
    assert!(d.take_pending().is_empty());
}

#[test]
fn display_frame_sequence() {
    let mut d = Ssd1681::new();
    d.take_pending();
    d.display_frame();
    assert_eq!(
        d.take_pending(),
        vec![
            Transaction::Command(0x22),
            Transaction::Data(vec![0xF7]),
            Transaction::Command(0x20),
            Transaction::WaitUntilIdle,
        ]
    );
}

#[test]
fn update_frames_send_the_buffer() {
    let mut d = Ssd1681::new();
    d.take_pending();
    let buffer = vec![0xA5u8; 5000];
    d.update_bw_frame(&buffer);
    d.update_red_frame(&[1, 2, 3]);
    let mut expected = full_frame();
    expected.push(Transaction::Command(0x24));
    expected.push(Transaction::Data(buffer.clone()));
    expected.extend(full_frame());
    expected.push(Transaction::Command(0x26));
    expected.push(Transaction::Data(vec![1, 2, 3]));
    assert_eq!(d.take_pending(), expected);
}

#[test]
fn clear_frames_repeat_one_byte() {
    let mut d = Ssd1681::new();
    d.take_pending();
    d.clear_bw_frame();
    d.clear_red_frame();
    let mut expected = full_frame();
    expected.push(Transaction::Command(0x24));
    expected.push(Transaction::RepeatData(0xFF, 5000));
    expected.extend(full_frame());
    expected.push(Transaction::Command(0x26));
    expected.push(Transaction::RepeatData(0x00, 5000));
    assert_eq!(d.take_pending(), expected);
}

#[test]
fn interface_queues_in_order() {
    let mut i = DisplayInterface::new();
    i.reset();
    i.cmd_with_data(0x4E, &[7]);
    i.data_x_times(0xAA, 3);
    i.wait_until_idle();
    assert_eq!(
        i.take_pending(),
        vec![
            Transaction::Reset,
            Transaction::Command(0x4E),
            Transaction::Data(vec![7]),
            Transaction::RepeatData(0xAA, 3),
            Transaction::WaitUntilIdle,
        ]
    );
    assert_ne!(DisplayError::BusWriteError, DisplayError::DCError);
}

#[test]
fn busy_reading_decides_waiting() {
    assert!(keep_waiting(Some(true)));
    assert!(!keep_waiting(Some(false)));
    assert!(keep_waiting(None));
}
