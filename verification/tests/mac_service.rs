use lib::mac::constants::{scan_duration_per_channel, MAX_FRAME_RETRIES};
use lib::mac::frame::{Beacon, Frame, FrameType, Header, MacAddress, MacCommand};
use lib::mac::radio::{RadioCapabilities, RadioError, RxMetadata, TxOptions, TxResult};
use lib::mac::service::{
    FrameBuf, MacAction, MacError, MacEvent, MacService, MacServiceConfig, RxDisposition, ScanKind, TxHandle,
    TxStatus, TX_QUEUE_CAPACITY,
};
use lib::types::{
    Channel, ChannelMask, ChannelPage, ExtendedAddress, Instant, MacCapability, MacStatus, PanId, ShortAddress,
    BROADCAST_ALL_RAW, CAPABILITY_ROUTER, CAPABILITY_SLEEPY_END_DEVICE, EMPTY_MASK_RAW, NO_SHORT_ADDRESS_RAW,
    PAN_BROADCAST_RAW,
};

fn svc(caps: RadioCapabilities) -> MacService {
    let cfg = MacServiceConfig { radio: caps, ..MacServiceConfig::default() };
    let mut s = MacService::new(cfg, ExtendedAddress(0x1122_3344_5566_7788));
    s.start(PanId(0x1234), ChannelPage(0), Channel::new_2_4ghz(15).unwrap(), ShortAddress(0x0001), false, true);
    s.poll_timers(Instant(0));
    while let Some(a) = s.next_action() {
        assert!(matches!(a, MacAction::SetChannel { .. } | MacAction::Configure(_)));
    }
    s
}

fn take_transmit(s: &mut MacService) -> (TxHandle, FrameBuf, TxOptions) {
    loop {
        match s.next_action() {
            Some(MacAction::Transmit { handle, frame, options }) => return (handle, frame, options),
            Some(_) => continue,
            None => panic!("no transmit action"),
        }
    }
}

fn frame_of(h: &Header, cmd: MacCommand) -> Vec<u8> {
    let mut buf = Vec::new();
    h.encode(&mut buf);
    cmd.encode(&mut buf);
    buf
}

fn acked(h: Header<'static>) -> Header<'static> {
    Header { frame_control: h.frame_control.with_ack_request(true), ..h }
}

#[test]
fn software_ack_retries_then_no_ack() {
    let mut s = svc(RadioCapabilities::default());
    let h = s.data_request(PanId(0x1234), MacAddress::Short(ShortAddress(0x0002)), &[1, 2, 3], true, false).unwrap();
    let mut now = Instant(0);
    for _ in 0..=MAX_FRAME_RETRIES {
        let (_, frame, opts) = take_transmit(&mut s);
        assert!(opts.ack_request);
        let f = Frame::decode_exact(&frame).unwrap();
        assert!(f.header.frame_control.ack_request());
        assert_eq!(f.payload, &[1, 2, 3]);
        s.on_tx_complete(Ok(TxResult::default()));
        assert!(s.next_event().is_none());
        now = now.plus(s.config().ack_wait);
        s.poll_timers(now);
    }
    assert_eq!(s.next_event(), Some(MacEvent::DataConfirm { handle: h, status: TxStatus::NoAck, frame_pending: false }));
    assert!(s.next_action().is_none());
}

#[test]
fn software_ack_success_matches_sequence() {
    let mut s = svc(RadioCapabilities::default());
    let h = s.data_request(PanId(0x1234), MacAddress::Short(ShortAddress(0x0002)), &[9], true, false).unwrap();
    let (_, frame, _) = take_transmit(&mut s);
    let seq = Frame::decode_exact(&frame).unwrap().header.sequence.unwrap();
    s.on_tx_complete(Ok(TxResult::default()));
    let wrong = [0x02, 0x00, seq.wrapping_add(1)];
    assert!(matches!(s.on_receive(&wrong, RxMetadata::default()), RxDisposition::Handled));
    assert!(s.next_event().is_none());
    let ack = [0x12, 0x00, seq];
    s.on_receive(&ack, RxMetadata::default());
    assert_eq!(s.next_event(), Some(MacEvent::DataConfirm { handle: h, status: TxStatus::Success, frame_pending: true }));
}

#[test]
fn hardware_ack_wait_reports_result_directly() {
    let mut s = svc(RadioCapabilities {
        ack_wait: true,
        retries: true,
        auto_ack: true,
        address_filter: true,
        ..RadioCapabilities::default()
    });
    let h = s.data_request(PanId(0x1234), MacAddress::Short(ShortAddress(0x0002)), &[9], true, false).unwrap();
    let _ = take_transmit(&mut s);
    s.on_tx_complete(Ok(TxResult { acked: true, frame_pending: false, timestamp_us: None }));
    assert_eq!(s.next_event(), Some(MacEvent::DataConfirm { handle: h, status: TxStatus::Success, frame_pending: false }));
    let h2 = s.data_request(PanId(0x1234), MacAddress::Short(ShortAddress(0x0002)), &[9], true, false).unwrap();
    let _ = take_transmit(&mut s);
    s.on_tx_complete(Err(RadioError::NoAck));
    assert_eq!(
        s.next_event(),
        Some(MacEvent::DataConfirm { handle: h2, status: TxStatus::RadioError, frame_pending: false })
    );
}

#[test]
fn broadcast_data_is_not_acked() {
    let mut s = svc(RadioCapabilities::default());
    let h = s.data_request(PanId(0x1234), MacAddress::Short(ShortAddress(BROADCAST_ALL_RAW)), &[1], true, false).unwrap();
    let (_, frame, opts) = take_transmit(&mut s);
    assert!(!opts.ack_request);
    assert!(!Frame::decode_exact(&frame).unwrap().header.frame_control.ack_request());
    s.on_tx_complete(Ok(TxResult::default()));
    assert_eq!(s.next_event(), Some(MacEvent::DataConfirm { handle: h, status: TxStatus::Success, frame_pending: false }));
}

#[test]
fn indirect_frame_served_on_data_request_and_expires() {
    let mut s = svc(RadioCapabilities::default());
    let child = ShortAddress(0x0042);
    let h = s.data_request(PanId(0x1234), MacAddress::Short(child), &[7, 7], true, true).unwrap();
    assert_eq!(s.indirect_len(), 1);
    assert!(s.next_action().is_none(), "indirect frames are not sent");
    let dr = acked(Header::new(
        FrameType::Command,
        5,
        PanId(0x1234),
        MacAddress::Short(ShortAddress(0x0001)),
        PanId(0x1234),
        MacAddress::Short(child),
    ));
    let buf = frame_of(&dr, MacCommand::DataRequest);
    assert!(matches!(s.on_receive(&buf, RxMetadata::default()), RxDisposition::Handled));
    let (_, ack, opts) = take_transmit(&mut s);
    assert!(!opts.csma);
    let ackh = Header::decode_exact(&ack).unwrap();
    assert_eq!(ackh.frame_control.frame_type(), FrameType::Ack);
    assert!(ackh.frame_control.frame_pending());
    assert_eq!(ackh.sequence, Some(5));
    s.on_tx_complete(Ok(TxResult::default()));
    let (_, data, opts) = take_transmit(&mut s);
    assert!(opts.ack_request);
    assert_eq!(Frame::decode_exact(&data).unwrap().payload, &[7, 7]);
    assert_eq!(s.indirect_len(), 0);
    s.on_tx_complete(Ok(TxResult::default()));
    let seq = Frame::decode_exact(&data).unwrap().header.sequence.unwrap();
    s.on_receive(&[0x02, 0x00, seq], RxMetadata::default());
    assert!(matches!(s.next_event(), Some(MacEvent::PollIndication { .. })));
    assert_eq!(s.next_event(), Some(MacEvent::DataConfirm { handle: h, status: TxStatus::Success, frame_pending: false }));

    let h2 = s.data_request(PanId(0x1234), MacAddress::Short(child), &[1], true, true).unwrap();
    s.poll_timers(Instant(0).plus(s.config().transaction_persistence));
    assert_eq!(
        s.next_event(),
        Some(MacEvent::DataConfirm { handle: h2, status: TxStatus::TransactionExpired, frame_pending: false })
    );
    assert_eq!(s.indirect_len(), 0);
}

#[test]
fn beacon_request_triggers_beacon_when_capable() {
    let mut s = svc(RadioCapabilities::default());
    s.set_beacon_payload(&[0xAB, 0xCD]);
    s.set_association_permit(true);
    let br = Header::new(
        FrameType::Command,
        1,
        PanId(PAN_BROADCAST_RAW),
        MacAddress::Short(ShortAddress(BROADCAST_ALL_RAW)),
        PanId(PAN_BROADCAST_RAW),
        MacAddress::Absent,
    );
    let buf = frame_of(&br, MacCommand::BeaconRequest);
    assert_eq!(&buf[..], &[0x03, 0x08, 0x01, 0xFF, 0xFF, 0xFF, 0xFF, 0x07]);
    s.on_receive(&buf, RxMetadata::default());
    let (_, frame, opts) = take_transmit(&mut s);
    assert!(!opts.ack_request);
    let f = Frame::decode_exact(&frame).unwrap();
    assert_eq!(f.header.frame_control.frame_type(), FrameType::Beacon);
    assert_eq!(f.header.src_pan, Some(PanId(0x1234)));
    assert_eq!(f.header.src, MacAddress::Short(ShortAddress(0x0001)));
    let b = Beacon::decode_exact(f.payload).unwrap();
    assert!(b.superframe.association_permit);
    assert!(!b.superframe.pan_coordinator);
    assert_eq!(b.payload, &[0xAB, 0xCD]);

    let mut ed = svc(RadioCapabilities::default());
    ed.pib.beacon_capable = false;
    ed.on_receive(&buf, RxMetadata::default());
    assert!(ed.next_action().is_none());
}

#[test]
fn active_scan_sends_beacon_requests_per_channel_and_confirms() {
    let mut s = svc(RadioCapabilities::default());
    let mask = ChannelMask(EMPTY_MASK_RAW)
        .with(Channel::new_2_4ghz(11).unwrap())
        .with(Channel::new_2_4ghz(20).unwrap());
    s.scan(ScanKind::Active, mask, 3).unwrap();
    let mut now = Instant(0);
    for ch in [11u8, 20] {
        assert_eq!(s.next_action(), Some(MacAction::SetChannel { page: ChannelPage(0), channel: Channel(ch) }));
        let (_, frame, _) = take_transmit(&mut s);
        let f = Frame::decode_exact(&frame).unwrap();
        assert_eq!(MacCommand::decode_exact(f.payload).unwrap(), MacCommand::BeaconRequest);
        s.on_tx_complete(Ok(TxResult::default()));
        let bh = Header::new(
            FrameType::Beacon,
            3,
            PanId(PAN_BROADCAST_RAW),
            MacAddress::Absent,
            PanId(0x5555),
            MacAddress::Short(ShortAddress(0)),
        );
        let mut buf = Vec::new();
        bh.encode(&mut buf);
        Beacon::non_beacon(true, true, &[1]).encode(&mut buf).unwrap();
        assert!(matches!(s.on_receive(&buf, RxMetadata::default()), RxDisposition::Beacon { .. }));
        now = now.plus(scan_duration_per_channel(3));
        s.poll_timers(now);
    }
    assert_eq!(s.next_action(), Some(MacAction::SetChannel { page: ChannelPage(0), channel: Channel(15) }));
    assert_eq!(s.next_event(), Some(MacEvent::ScanConfirm { kind: ScanKind::Active, channels: mask }));
    assert!(!s.scanning());
}

#[test]
fn energy_scan_collects_levels() {
    let mut s = svc(RadioCapabilities::default());
    let mask = ChannelMask(EMPTY_MASK_RAW).with(Channel(11)).with(Channel(12));
    s.scan(ScanKind::Energy, mask, 2).unwrap();
    for (ch, level) in [(11u8, 40u8), (12, 200)] {
        assert_eq!(s.next_action(), Some(MacAction::SetChannel { page: ChannelPage(0), channel: Channel(ch) }));
        assert!(matches!(s.next_action(), Some(MacAction::EnergyDetect { .. })));
        s.on_energy_result(level);
    }
    assert!(matches!(s.next_action(), Some(MacAction::SetChannel { .. })));
    assert_eq!(s.next_event(), Some(MacEvent::ScanConfirm { kind: ScanKind::Energy, channels: mask }));
    assert_eq!(s.energy_results()[11], 40);
    assert_eq!(s.energy_results()[12], 200);
    assert_eq!(s.energy_results()[13], 0);
}

#[test]
fn association_handshake_joiner_side() {
    let mut s = MacService::new(MacServiceConfig::default(), ExtendedAddress(0xAAAA_BBBB_CCCC_DDDD));
    s.poll_timers(Instant(0));
    s.start(PanId(PAN_BROADCAST_RAW), ChannelPage(0), Channel(15), ShortAddress(NO_SHORT_ADDRESS_RAW), false, false);
    while s.next_action().is_some() {}
    s.associate(PanId(0x1234), MacAddress::Short(ShortAddress(0x0000)), MacCapability(CAPABILITY_SLEEPY_END_DEVICE))
        .unwrap();
    let (_, frame, opts) = take_transmit(&mut s);
    assert!(opts.ack_request);
    let f = Frame::decode_exact(&frame).unwrap();
    assert_eq!(f.header.dst_pan, Some(PanId(0x1234)));
    assert_eq!(f.header.src_pan, Some(PanId(PAN_BROADCAST_RAW)));
    assert_eq!(f.header.src, MacAddress::Extended(ExtendedAddress(0xAAAA_BBBB_CCCC_DDDD)));
    assert!(matches!(MacCommand::decode_exact(f.payload).unwrap(), MacCommand::AssociationRequest { .. }));
    let seq = f.header.sequence.unwrap();
    s.on_tx_complete(Ok(TxResult::default()));
    s.on_receive(&[0x02, 0x00, seq], RxMetadata::default());
    let t = Instant(0).plus(s.config().response_wait);
    s.poll_timers(t);
    let (_, frame, _) = take_transmit(&mut s);
    let f = Frame::decode_exact(&frame).unwrap();
    assert_eq!(MacCommand::decode_exact(f.payload).unwrap(), MacCommand::DataRequest);
    assert_eq!(f.header.dst_pan, Some(PanId(0x1234)));
    assert_eq!(f.header.src_pan, None, "intra-PAN data request");
    let seq = f.header.sequence.unwrap();
    s.on_tx_complete(Ok(TxResult::default()));
    s.on_receive(&[0x12, 0x00, seq], RxMetadata::default());
    let rh = acked(Header::new(
        FrameType::Command,
        9,
        PanId(0x1234),
        MacAddress::Extended(ExtendedAddress(0xAAAA_BBBB_CCCC_DDDD)),
        PanId(0x1234),
        MacAddress::Extended(ExtendedAddress(0x0000_0000_0000_0001)),
    ));
    let buf = frame_of(
        &rh,
        MacCommand::AssociationResponse { short_address: ShortAddress(0x7788), status: MacStatus::Success },
    );
    s.on_receive(&buf, RxMetadata::default());
    let (_, ack, _) = take_transmit(&mut s);
    assert_eq!(Header::decode_exact(&ack).unwrap().sequence, Some(9));
    assert_eq!(
        s.next_event(),
        Some(MacEvent::AssociateConfirm { short_address: ShortAddress(0x7788), status: MacStatus::Success })
    );
    assert_eq!(s.pib.short_address, ShortAddress(0x7788));
    assert_eq!(s.pib.coord_extended_address, ExtendedAddress(0x0000_0000_0000_0001));
}

#[test]
fn association_timeout_reports_no_data() {
    let mut s = MacService::new(MacServiceConfig::default(), ExtendedAddress(0xAAAA_BBBB_CCCC_DDDD));
    s.poll_timers(Instant(0));
    while s.next_action().is_some() {}
    s.associate(PanId(0x1234), MacAddress::Short(ShortAddress(0x0000)), MacCapability(CAPABILITY_ROUTER)).unwrap();
    let (_, frame, _) = take_transmit(&mut s);
    let seq = Frame::decode_exact(&frame).unwrap().header.sequence.unwrap();
    s.on_tx_complete(Ok(TxResult::default()));
    s.on_receive(&[0x02, 0x00, seq], RxMetadata::default());
    let t = Instant(0).plus(s.config().response_wait);
    s.poll_timers(t);
    let (_, frame, _) = take_transmit(&mut s);
    let seq = Frame::decode_exact(&frame).unwrap().header.sequence.unwrap();
    s.on_tx_complete(Ok(TxResult::default()));
    s.on_receive(&[0x02, 0x00, seq], RxMetadata::default());
    assert_eq!(
        s.next_event(),
        Some(MacEvent::AssociateConfirm { short_address: ShortAddress(NO_SHORT_ADDRESS_RAW), status: MacStatus::NoData })
    );
}

#[test]
fn association_indication_and_indirect_response_parent_side() {
    let mut s = svc(RadioCapabilities::default());
    s.pib.pan_coordinator = true;
    s.set_association_permit(true);
    let joiner = ExtendedAddress(0x0102_0304_0506_0708);
    let ah = acked(Header::new(
        FrameType::Command,
        11,
        PanId(0x1234),
        MacAddress::Short(ShortAddress(0x0001)),
        PanId(PAN_BROADCAST_RAW),
        MacAddress::Extended(joiner),
    ));
    let buf = frame_of(&ah, MacCommand::AssociationRequest { capability: MacCapability(CAPABILITY_ROUTER) });
    s.on_receive(&buf, RxMetadata { lqi: 200, ..RxMetadata::default() });
    let (_, ack, _) = take_transmit(&mut s);
    assert_eq!(Header::decode_exact(&ack).unwrap().sequence, Some(11));
    s.on_tx_complete(Ok(TxResult::default()));
    assert_eq!(
        s.next_event(),
        Some(MacEvent::AssociateIndication { device: joiner, capability: MacCapability(CAPABILITY_ROUTER), lqi: 200 })
    );
    s.associate_response(joiner, ShortAddress(0x1000), MacStatus::Success).unwrap();
    assert_eq!(s.indirect_len(), 1);
    let dr = acked(Header::new(
        FrameType::Command,
        12,
        PanId(0x1234),
        MacAddress::Short(ShortAddress(0x0001)),
        PanId(0x1234),
        MacAddress::Extended(joiner),
    ));
    let buf = frame_of(&dr, MacCommand::DataRequest);
    s.on_receive(&buf, RxMetadata::default());
    let (_, ack, _) = take_transmit(&mut s);
    assert!(Header::decode_exact(&ack).unwrap().frame_control.frame_pending());
    s.on_tx_complete(Ok(TxResult::default()));
    let (_, rsp, _) = take_transmit(&mut s);
    let f = Frame::decode_exact(&rsp).unwrap();
    assert_eq!(f.header.dst, MacAddress::Extended(joiner));
    assert_eq!(
        MacCommand::decode_exact(f.payload).unwrap(),
        MacCommand::AssociationResponse { short_address: ShortAddress(0x1000), status: MacStatus::Success }
    );
    let seq = f.header.sequence.unwrap();
    s.on_tx_complete(Ok(TxResult::default()));
    s.on_receive(&[0x02, 0x00, seq], RxMetadata::default());
    assert!(matches!(s.next_event(), Some(MacEvent::PollIndication { .. })));
    assert_eq!(s.next_event(), Some(MacEvent::CommStatus { device: joiner, status: TxStatus::Success }));
}

#[test]
fn association_denied_when_permit_off() {
    let mut s = svc(RadioCapabilities::default());
    s.set_association_permit(false);
    let joiner = ExtendedAddress(0x0102_0304_0506_0708);
    let ah = Header::new(
        FrameType::Command,
        11,
        PanId(0x1234),
        MacAddress::Short(ShortAddress(0x0001)),
        PanId(PAN_BROADCAST_RAW),
        MacAddress::Extended(joiner),
    );
    let buf = frame_of(&ah, MacCommand::AssociationRequest { capability: MacCapability(CAPABILITY_ROUTER) });
    s.on_receive(&buf, RxMetadata::default());
    assert!(s.next_event().is_none());
    assert_eq!(s.indirect_len(), 1, "access-denied response queued");
}

#[test]
fn software_filter_drops_foreign_frames() {
    let mut s = svc(RadioCapabilities::default());
    let other = Header::new(
        FrameType::Data,
        1,
        PanId(0x9999),
        MacAddress::Short(ShortAddress(0x0001)),
        PanId(0x9999),
        MacAddress::Short(ShortAddress(0x0002)),
    );
    let mut buf = [0u8; 32];
    let n = other.encode_to_slice(&mut buf).unwrap();
    assert!(matches!(s.on_receive(&buf[..n], RxMetadata::default()), RxDisposition::Handled));
    let mine = Header::new(
        FrameType::Data,
        1,
        PanId(0x1234),
        MacAddress::Short(ShortAddress(0x0001)),
        PanId(0x1234),
        MacAddress::Short(ShortAddress(0x0002)),
    );
    let n = mine.encode_to_slice(&mut buf).unwrap();
    assert!(matches!(s.on_receive(&buf[..n], RxMetadata::default()), RxDisposition::Data { .. }));
    for len in 0..n {
        let _ = s.on_receive(&buf[..len], RxMetadata::default());
    }
}

#[test]
fn poll_reports_frame_pending() {
    let mut s = svc(RadioCapabilities::default());
    assert_eq!(s.poll(), Err(MacError::InvalidRequest));
    s.set_coordinator(ShortAddress(0x0000), ExtendedAddress(1));
    s.poll().unwrap();
    let (_, frame, _) = take_transmit(&mut s);
    let f = Frame::decode_exact(&frame).unwrap();
    assert_eq!(MacCommand::decode_exact(f.payload).unwrap(), MacCommand::DataRequest);
    let seq = f.header.sequence.unwrap();
    s.on_tx_complete(Ok(TxResult::default()));
    s.on_receive(&[0x12, 0x00, seq], RxMetadata::default());
    assert_eq!(s.next_event(), Some(MacEvent::PollConfirm { frame_pending: true, status: TxStatus::Success }));
    assert!(s.needs_receiver());
    s.poll_timers(Instant(0).plus(s.config().poll_wait));
    assert!(!s.needs_receiver());
}

#[test]
fn queue_is_bounded() {
    let mut s = svc(RadioCapabilities::default());
    for _ in 0..TX_QUEUE_CAPACITY {
        s.data_request(PanId(0x1234), MacAddress::Short(ShortAddress(2)), &[1], false, false).unwrap();
    }
    assert_eq!(
        s.data_request(PanId(0x1234), MacAddress::Short(ShortAddress(2)), &[1], false, false),
        Err(MacError::QueueFull)
    );
    let big = [0u8; 120];
    assert_eq!(
        s.data_request(PanId(0x1234), MacAddress::Short(ShortAddress(2)), &big, false, false),
        Err(MacError::FrameTooLong)
    );
}

use lib::mac::ie::{EnhancedBeacon, EnhancedBeaconRequest};
use lib::mac::frame::{AddressMode, FrameControl, FrameVersion};
use lib::mac::frame::FC_IE_PRESENT;

#[test]
fn mac_address_from_addresses() {
    assert_eq!(MacAddress::from(ShortAddress(5)), MacAddress::Short(ShortAddress(5)));
    assert_eq!(MacAddress::from(ExtendedAddress(7)), MacAddress::Extended(ExtendedAddress(7)));
}

#[test]
fn deferred_transaction_is_handed_over_on_poll() {
    let mut s = svc(RadioCapabilities::default());
    let child = ShortAddress(0x0042);
    let h = s.data_request_deferred(MacAddress::Short(child)).unwrap();
    assert_ne!(h.0, 0);
    assert_eq!(s.indirect_len(), 1);
    let dr = acked(Header::new(
        FrameType::Command,
        8,
        PanId(0x1234),
        MacAddress::Short(ShortAddress(0x0001)),
        PanId(0x1234),
        MacAddress::Short(child),
    ));
    s.on_receive(&frame_of(&dr, MacCommand::DataRequest), RxMetadata::default());
    let (_, ack, _) = take_transmit(&mut s);
    assert!(Header::decode_exact(&ack).unwrap().frame_control.frame_pending());
    assert!(matches!(s.next_event(), Some(MacEvent::PollIndication { .. })));
    assert_eq!(s.next_event(), Some(MacEvent::IndirectReady { handle: h }));
    assert_eq!(s.indirect_len(), 0);
    assert_eq!(s.tx_queue_len(), 0);
}

#[test]
fn purge_removes_only_the_named_transaction() {
    let mut s = svc(RadioCapabilities { pending_bit: true, ..RadioCapabilities::default() });
    let a = s.data_request(PanId(0x1234), MacAddress::Short(ShortAddress(7)), &[1], true, true).unwrap();
    let b = s.data_request(PanId(0x1234), MacAddress::Short(ShortAddress(8)), &[2], true, true).unwrap();
    assert_ne!(a, b);
    while s.next_action().is_some() {}
    assert!(s.purge(a));
    assert!(!s.purge(a));
    assert_eq!(s.indirect_len(), 1);
    match s.next_action() {
        Some(MacAction::SetPending { short, extended }) => {
            assert_eq!(short, vec![ShortAddress(8)]);
            assert!(extended.is_empty());
        }
        other => panic!("unexpected {:?}", other),
    }
}

#[test]
fn next_deadline_is_the_earliest_timer() {
    let mut s = svc(RadioCapabilities::default());
    assert_eq!(s.next_deadline(), None);
    s.poll_timers(Instant(1000));
    s.data_request(PanId(0x1234), MacAddress::Short(ShortAddress(7)), &[1], true, true).unwrap();
    assert_eq!(s.next_deadline(), Some(Instant(1000 + 7680)));
    s.data_request(PanId(0x1234), MacAddress::Short(ShortAddress(2)), &[1], true, false).unwrap();
    let _ = take_transmit(&mut s);
    s.on_tx_complete(Ok(TxResult::default()));
    assert_eq!(s.next_deadline(), Some(Instant(1005)));
}

#[test]
fn inter_pan_frame_uses_extended_source() {
    let mut s = svc(RadioCapabilities::default());
    s.data_request_inter_pan(
        PanId(PAN_BROADCAST_RAW),
        MacAddress::Short(ShortAddress(BROADCAST_ALL_RAW)),
        PanId(0x1234),
        &[0xAA],
        true,
    )
    .unwrap();
    let (_, frame, opts) = take_transmit(&mut s);
    assert!(!opts.ack_request);
    let f = Frame::decode_exact(&frame).unwrap();
    assert_eq!(f.header.src, MacAddress::Extended(ExtendedAddress(0x1122_3344_5566_7788)));
    assert_eq!(f.header.src_pan, Some(PanId(0x1234)));
    assert_eq!(f.payload, &[0xAA]);
}

#[test]
fn reset_clears_transient_state() {
    let mut s = svc(RadioCapabilities::default());
    s.data_request(PanId(0x1234), MacAddress::Short(ShortAddress(7)), &[1], true, true).unwrap();
    s.reset();
    assert_eq!(s.indirect_len(), 0);
    assert_eq!(s.pib.short_address, ShortAddress(NO_SHORT_ADDRESS_RAW));
    assert_eq!(s.pib.extended_address, ExtendedAddress(0x1122_3344_5566_7788));
    assert!(s.has_output());
    assert!(matches!(s.next_action(), Some(MacAction::Configure(_))));
}

#[test]
fn beacon_payload_is_truncated() {
    let mut s = svc(RadioCapabilities::default());
    assert!(s.set_beacon_payload(&[1u8; 52]));
    assert!(!s.set_beacon_payload(&[2u8; 60]));
    assert_eq!(s.pib.beacon_payload.len(), 52);
}

#[test]
fn busy_and_invalid_requests() {
    let mut s = svc(RadioCapabilities::default());
    assert_eq!(s.scan(ScanKind::Active, ChannelMask(EMPTY_MASK_RAW), 3), Err(MacError::InvalidRequest));
    assert_eq!(
        s.associate(PanId(1), MacAddress::Absent, MacCapability(CAPABILITY_ROUTER)),
        Err(MacError::InvalidRequest)
    );
    s.scan(ScanKind::Energy, ChannelMask(EMPTY_MASK_RAW).with(Channel(11)), 1).unwrap();
    assert!(s.scanning());
    assert_eq!(s.scan(ScanKind::Active, ChannelMask(EMPTY_MASK_RAW).with(Channel(12)), 1), Err(MacError::Busy));
    assert_eq!(
        s.associate(PanId(1), MacAddress::Short(ShortAddress(0)), MacCapability(CAPABILITY_ROUTER)),
        Err(MacError::Busy)
    );
}

#[test]
fn indirect_table_overflow() {
    let mut s = svc(RadioCapabilities::default());
    for i in 0..8u16 {
        s.data_request(PanId(0x1234), MacAddress::Short(ShortAddress(0x10 + i)), &[1], true, true).unwrap();
    }
    assert_eq!(
        s.data_request(PanId(0x1234), MacAddress::Short(ShortAddress(0x30)), &[1], true, true),
        Err(MacError::TransactionOverflow)
    );
}

#[test]
fn pan_id_conflict_notification_reaches_coordinator() {
    let mut s = svc(RadioCapabilities::default());
    s.pib.pan_coordinator = true;
    let h = acked(Header::new(
        FrameType::Command,
        3,
        PanId(0x1234),
        MacAddress::Short(ShortAddress(0x0001)),
        PanId(0x1234),
        MacAddress::Short(ShortAddress(0x0005)),
    ));
    s.on_receive(&frame_of(&h, MacCommand::PanIdConflictNotification), RxMetadata::default());
    let (_, ack, _) = take_transmit(&mut s);
    assert_eq!(&ack[..], &[0x02, 0x00, 3]);
    assert_eq!(s.next_event(), Some(MacEvent::PanIdConflict { pan_id: PanId(0x1234) }));
}

#[test]
fn enhanced_beacon_answers_a_joining_request() {
    let cfg = MacServiceConfig { enhanced_beacons: true, ..MacServiceConfig::default() };
    let mut s = MacService::new(cfg, ExtendedAddress(0x1122_3344_5566_7788));
    s.start(PanId(0x1234), ChannelPage(0), Channel(15), ShortAddress(0x0001), true, true);
    s.set_association_permit(true);
    s.set_beacon_payload(&[0x00, 0x22, 0x84]);
    while s.next_action().is_some() {}
    let joiner = ExtendedAddress(0x0A0B_0C0D_0E0F_1011);
    let fc = FrameControl::new(FrameType::Command, FrameVersion::V2015)
        .with_dst_mode(AddressMode::Short)
        .with_src_mode(AddressMode::Extended)
        .with_pan_id_compression(true)
        .with_ie_present(true);
    let header = Header {
        frame_control: fc,
        sequence: Some(4),
        dst_pan: Some(PanId(PAN_BROADCAST_RAW)),
        dst: MacAddress::Short(ShortAddress(BROADCAST_ALL_RAW)),
        src_pan: None,
        src: MacAddress::Extended(joiner),
        header_ies: &[0x00, 0x3F],
    };
    let mut buf = Vec::new();
    header.encode(&mut buf);
    EnhancedBeaconRequest::joining(Some(0)).write(&mut buf).unwrap();
    assert!(matches!(s.on_receive(&buf, RxMetadata { lqi: 200, ..RxMetadata::default() }), RxDisposition::Handled));
    let (_, frame, opts) = take_transmit(&mut s);
    assert_eq!(opts.tx_power_dbm, Some(0));
    let f = Frame::decode_exact(&frame).unwrap();
    assert_eq!(f.header.frame_control.frame_type(), FrameType::Beacon);
    assert!(f.header.frame_control.0 & FC_IE_PRESENT != 0);
    assert_eq!(f.header.src, MacAddress::Extended(ExtendedAddress(0x1122_3344_5566_7788)));
    let eb = EnhancedBeacon::parse(f.payload).unwrap();
    assert_eq!(eb.beacon_payload, &[0x00, 0x22, 0x84]);
    assert_eq!(eb.sender_short, ShortAddress(0x0001));
    assert_eq!(eb.tx_power, Some(0));
    assert!(eb.superframe.association_permit);
    assert!(s.power_table().get(None, Some(joiner)).is_some());

    // The scanning joiner delivers the Enhanced Beacon as a beacon.
    let mut j = MacService::new(MacServiceConfig::default(), joiner);
    j.scan_enhanced(ChannelMask(EMPTY_MASK_RAW).with(Channel(15)), 1, EnhancedBeaconRequest::joining(None)).unwrap();
    while j.next_action().is_some() {}
    match j.on_receive(&frame, RxMetadata::default()) {
        RxDisposition::Beacon { header, beacon, .. } => {
            assert_eq!(header.src, MacAddress::Short(ShortAddress(0x0001)));
            assert_eq!(beacon.payload, &[0x00, 0x22, 0x84]);
        }
        other => panic!("unexpected {:?}", other),
    }
}

#[test]
fn enhanced_beacon_requests_are_ignored_when_disabled() {
    let mut s = svc(RadioCapabilities::default());
    s.set_association_permit(true);
    let fc = FrameControl::new(FrameType::Command, FrameVersion::V2015)
        .with_dst_mode(AddressMode::Short)
        .with_src_mode(AddressMode::Extended)
        .with_pan_id_compression(true)
        .with_ie_present(true);
    let header = Header {
        frame_control: fc,
        sequence: Some(4),
        dst_pan: Some(PanId(PAN_BROADCAST_RAW)),
        dst: MacAddress::Short(ShortAddress(BROADCAST_ALL_RAW)),
        src_pan: None,
        src: MacAddress::Extended(ExtendedAddress(9)),
        header_ies: &[0x00, 0x3F],
    };
    let mut buf = Vec::new();
    header.encode(&mut buf);
    EnhancedBeaconRequest::joining(None).write(&mut buf).unwrap();
    s.on_receive(&buf, RxMetadata::default());
    assert!(s.next_action().is_none());
}
