use embucket::accelerators::{flight_first_message, flight_read_action, FlightAction, FlightRead};

#[test]
fn flight_reader_steps() {
    assert_eq!(flight_read_action(FlightRead::Decoded), FlightAction::SendBatch);
    assert_eq!(flight_read_action(FlightRead::DecodeFailed), FlightAction::SendErrorThenStop);
    assert_eq!(flight_read_action(FlightRead::Ended), FlightAction::Stop);
    assert_eq!(flight_read_action(FlightRead::ReadFailed), FlightAction::Stop);
    assert_eq!(flight_first_message(Ok(true)), Ok(()));
    assert_eq!(flight_first_message(Ok(false)), Err("empty Flight stream".to_string()));
    assert_eq!(flight_first_message(Err("boom".to_string())), Err("boom".to_string()));
}
