use rp_usb::types::{Direction, EndpointAddress};

#[test]
fn address_parts_come_back() {
    for index in 0..128 {
        let a = EndpointAddress::from_parts(index, Direction::In);
        assert_eq!((a.index(), a.direction(), a.is_in()), (index, Direction::In, true));
        let a = EndpointAddress::from_parts(index, Direction::Out);
        assert_eq!((a.index(), a.direction(), a.is_in()), (index, Direction::Out, false));
    }
}

#[test]
fn exact_address_bytes() {
    assert_eq!(EndpointAddress::from_parts(3, Direction::In).raw, 0x83);
    assert_eq!(EndpointAddress::from_parts(3, Direction::Out).raw, 0x03);
    assert_eq!(EndpointAddress::from_parts(0x1ff, Direction::Out).raw, 0xff);
    assert_eq!(EndpointAddress { raw: 0xff }.index(), 0x7f);
}
