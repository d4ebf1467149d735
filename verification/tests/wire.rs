use humanize_plugin::adapters::tmux::config::TmuxInputTransactionConfig;
use humanize_plugin::adapters::tmux::delay::Delay;
use humanize_plugin::driver::protocol::{wire_from_name, DriverWire};
use humanize_plugin::input_ledger::MachineInputLedger;

#[test]
fn runtime_prompt_delay_scales_with_input_and_caps_at_thirty_seconds() {
    let config = TmuxInputTransactionConfig::runtime();
    assert_eq!(config.prompt_to_submit_delay("short"), Delay::from_millis(250));
    assert_eq!(config.prompt_to_submit_delay(&"x".repeat(1000)), Delay::from_secs(3));
    assert_eq!(config.prompt_to_submit_delay(&"x".repeat(20_000)), Delay::from_secs(30));
    let quick = TmuxInputTransactionConfig::deterministic(MachineInputLedger::in_memory(), 0);
    assert_eq!(quick.prompt_to_submit_delay(&"x".repeat(20_000)), Delay::zero());
}

#[test]
fn wire_names_are_unique_and_round_trip() {
    let mut names = std::collections::BTreeSet::new();
    for wire in DriverWire::ALL {
        assert!(names.insert(wire.as_str()));
        assert_eq!(wire_from_name(wire.as_str()), Some(wire));
    }
}
