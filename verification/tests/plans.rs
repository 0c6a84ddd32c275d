use srtla_send::harness::{
    check_impairment_deps, check_integration_deps, inject_udp_packets, inject_udp_stream,
    lists_port, namespace_command, plan_stack, unique_ns_name, Found, SrtlaTestTopology,
};
use srtla_send::text::{decimal, hex, signed_decimal};

fn all_found() -> Found {
    Found {
        privileges: true,
        srtla_rec: true,
        srt_live_transmit: true,
        ip: true,
        tc: true,
        ss: true,
    }
}

#[test]
fn missing_things_are_named() {
    assert!(check_integration_deps(&all_found()).is_ok());
    let cases = [
        (Found { privileges: false, ss: false, ..all_found() }, "requires root / passwordless sudo"),
        (Found { srtla_rec: false, ..all_found() }, "srtla_rec not found in PATH"),
        (Found { srt_live_transmit: false, ..all_found() }, "srt-live-transmit not found in PATH"),
        (Found { tc: false, ss: false, ..all_found() }, "system tool 'tc' not found"),
    ];
    for (found, message) in cases {
        assert_eq!(check_integration_deps(&found).err().unwrap().to_text(), message);
    }
    assert_eq!(
        check_impairment_deps(&all_found(), false).err().unwrap().to_text(),
        "sch_netem kernel module not available (try: sudo modprobe sch_netem)"
    );
    assert!(check_impairment_deps(&all_found(), true).is_ok());
}

#[test]
fn links_are_named_and_addressed() {
    let topo = SrtlaTestTopology::new("s".to_string(), "r".to_string(), 0x1_2345, 2);
    assert_eq!(topo.sender_ips, vec!["10.10.1.1", "10.10.2.1"]);
    assert_eq!(topo.receiver_ip, "10.10.1.2");
    assert_eq!(topo.sender_ifaces, vec!["vs2346_0", "vs2346_1"]);
    assert_eq!(topo.receiver_ifaces[1], "vr2346_1");
    assert_eq!(topo.impair_link(1).unwrap(), "vs2346_1");
    assert_eq!(topo.impair_link(2).unwrap_err(), "link index 2 out of range");
    assert_eq!(topo.ip_list(), "10.10.1.1\n10.10.2.1\n");
}

#[test]
fn names_fit_a_device() {
    assert_eq!(unique_ns_name("a", 255, 3), "a_ff_3");
    assert_eq!(unique_ns_name("a_rather_long_prefix", 255, 3), "a_rather_long_p");
    assert_eq!(unique_ns_name("\u{e9}\u{e9}\u{e9}\u{e9}\u{e9}\u{e9}", 255, 13).len(), 15);
    assert_eq!(unique_ns_name("\u{e9}", 0xffff, 0), "\u{e9}_0_0");
}

#[test]
fn scripts_are_composed() {
    let burst = inject_udp_packets("10.0.0.1", 5555, 20);
    assert!(burst.script.ends_with("('10.0.0.1',5555)) for _ in range(20)]; s.close()"));
    assert_eq!(burst.context, "inject 20 UDP packets to 10.0.0.1:5555");
    let stream = inject_udp_stream("10.0.0.1", 5555, 500, "2.5").ok().unwrap();
    assert!(stream.script.contains("time.time()-start<2.5:\n"));
    assert!(stream.script.contains("time.sleep(2000/1e6)"));
    assert_eq!(
        inject_udp_stream("10.0.0.1", 5555, 0, "1").err().unwrap(),
        "packets_per_sec must be > 0"
    );
}

#[test]
fn numbers_are_written_out() {
    assert_eq!(decimal(0), "0");
    assert_eq!(decimal(u64::MAX), "18446744073709551615");
    assert_eq!(signed_decimal(i32::MIN), "-2147483648");
    assert_eq!(signed_decimal(90), "90");
    assert_eq!(hex(0xbeef), "beef");
}

fn words(list: &[&str]) -> Vec<String> {
    list.iter().map(|w| w.to_string()).collect()
}

#[test]
fn programs_run_in_their_namespaces() {
    assert_eq!(
        namespace_command("ns1", "ping", &words(&["-c", "1"]), &[("A", "b"), ("C", "")]),
        ["ip", "netns", "exec", "ns1", "env", "A=b", "C=", "ping", "-c", "1"]
    );
    let topo = SrtlaTestTopology::new("s".to_string(), "r".to_string(), 7, 1);
    let plan = plan_stack(&topo, "/bin/sender", "/tmp/ips", &words(&["--verbose"]));
    assert_eq!(
        plan.srt_server,
        [
            "ip",
            "netns",
            "exec",
            "r",
            "srt-live-transmit",
            "srt://:4001?mode=listener",
            "udp://127.0.0.1:9999"
        ]
    );
    assert_eq!(
        plan.srtla_rec[4..],
        [
            "srtla_rec",
            "--srtla_port",
            "5000",
            "--srt_hostname",
            "127.0.0.1",
            "--srt_port",
            "4001"
        ]
    );
    assert_eq!(
        plan.srtla_send,
        [
            "ip",
            "netns",
            "exec",
            "s",
            "env",
            "RUST_LOG=debug",
            "/bin/sender",
            "5555",
            "10.10.1.2",
            "5000",
            "/tmp/ips",
            "--verbose"
        ]
    );
}

#[test]
fn ports_are_found_in_listings() {
    let listing = "State  Local\nUNCONN 0.0.0.0:5000 *\n";
    assert!(lists_port(listing, 5000));
    assert!(lists_port(listing, 500));
    assert!(!lists_port(listing, 5001));
    assert!(!lists_port("", 1));
    assert!(lists_port(":1", 1));
}
