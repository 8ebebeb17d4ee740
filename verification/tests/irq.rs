use kernel_core::abi::irq::{
    set_irq_handler, Binding, Controller, Delivery, InterruptRedirectionTable, IrqInstall,
    MASTER_LINES, VECTORS,
};

const MASTER_OFFSET: u8 = 0x20;

fn guest_tables() -> Vec<Vec<usize>> {
    vec![vec![0x1000, 0x2000, 0x3000], vec![0xaaaa, 0xbbbb]]
}

fn assert_unbound(table: &InterruptRedirectionTable) {
    for vector in 0..=255u8 {
        assert_eq!(table.entry(vector), None);
    }
}

#[test]
fn constants_describe_the_machine() {
    assert_eq!(VECTORS, 256);
    assert_eq!(MASTER_LINES, 8);
}

#[test]
fn new_table_binds_nothing() {
    let table = InterruptRedirectionTable::new();
    assert_unbound(&table);
    for vector in [0u8, 0x20, 0x2f, 255] {
        assert_eq!(table.dispatch(vector), Delivery { acknowledge: Controller::Master, call: None });
    }
}

#[test]
fn out_of_range_vector_is_ignored() {
    let mut table = InterruptRedirectionTable::new();
    let tables = guest_tables();
    for index in [256u32, 257, 1000, u32::MAX] {
        assert_eq!(set_irq_handler(&mut table, index, 1, &tables, 0x7000, MASTER_OFFSET), None);
        assert_unbound(&table);
    }
}

#[test]
fn out_of_range_vector_is_ignored_before_the_function_is_looked_up() {
    let mut table = InterruptRedirectionTable::new();
    assert_eq!(set_irq_handler(&mut table, 256, 99, &guest_tables(), 0, MASTER_OFFSET), None);
    assert_eq!(set_irq_handler(&mut table, 300, 0, &[], 0, MASTER_OFFSET), None);
    assert_unbound(&table);
}

#[test]
fn out_of_range_vector_leaves_bindings_alone() {
    let mut table = InterruptRedirectionTable::new();
    let tables = guest_tables();
    set_irq_handler(&mut table, 0x21, 0, &tables, 0x7000, MASTER_OFFSET);
    assert_eq!(set_irq_handler(&mut table, 0x121, 2, &tables, 0x8000, MASTER_OFFSET), None);
    assert_eq!(table.entry(0x21), Some(Binding { handler: 0x1000, context: 0x7000 }));
}

#[test]
fn installed_handler_is_dispatched() {
    let mut table = InterruptRedirectionTable::new();
    let tables = guest_tables();
    let todo = set_irq_handler(&mut table, 0x21, 1, &tables, 0x7000, MASTER_OFFSET);
    assert_eq!(todo, Some(IrqInstall { vector: 0x21, controller: Controller::Master, line: 1 }));
    let expected = Delivery {
        acknowledge: Controller::Master,
        call: Some(Binding { handler: 0x2000, context: 0x7000 }),
    };
    assert_eq!(table.dispatch(0x21), expected);
    assert_eq!(table.dispatch(0x21), expected);
    for vector in 0..=255u8 {
        if vector != 0x21 {
            assert_eq!(table.entry(vector), None);
        }
    }
}

#[test]
fn function_comes_from_the_first_table() {
    let mut table = InterruptRedirectionTable::new();
    let tables = vec![vec![0x10, 0x11], vec![0x20, 0x21]];
    set_irq_handler(&mut table, 3, 0, &tables, 1, MASTER_OFFSET);
    set_irq_handler(&mut table, 4, 1, &tables, 2, MASTER_OFFSET);
    assert_eq!(table.entry(3), Some(Binding { handler: 0x10, context: 1 }));
    assert_eq!(table.entry(4), Some(Binding { handler: 0x11, context: 2 }));
}

#[test]
fn reinstalling_replaces_the_binding() {
    let mut table = InterruptRedirectionTable::new();
    let tables = guest_tables();
    set_irq_handler(&mut table, 0x28, 0, &tables, 0x7000, MASTER_OFFSET);
    assert_eq!(table.dispatch(0x28).call, Some(Binding { handler: 0x1000, context: 0x7000 }));
    let todo = set_irq_handler(&mut table, 0x28, 2, &tables, 0x9000, MASTER_OFFSET);
    assert_eq!(todo, Some(IrqInstall { vector: 0x28, controller: Controller::Slave, line: 8 }));
    assert_eq!(table.dispatch(0x28).call, Some(Binding { handler: 0x3000, context: 0x9000 }));
    assert_eq!(table.dispatch(0x28).call, Some(Binding { handler: 0x3000, context: 0x9000 }));
}

#[test]
fn every_vector_can_be_bound() {
    let mut table = InterruptRedirectionTable::new();
    let tables = guest_tables();
    for index in 0..256u32 {
        let todo = set_irq_handler(&mut table, index, 0, &tables, index as usize, MASTER_OFFSET);
        assert_eq!(todo.unwrap().vector as u32, index);
    }
    for vector in 0..=255u8 {
        assert_eq!(table.entry(vector), Some(Binding { handler: 0x1000, context: vector as usize }));
    }
}

#[test]
fn line_is_the_vector_less_the_master_offset() {
    let mut table = InterruptRedirectionTable::new();
    let tables = guest_tables();
    let cases: [(u32, Controller, u8); 6] = [
        (0x20, Controller::Master, 0),
        (0x27, Controller::Master, 7),
        (0x28, Controller::Slave, 8),
        (0x2f, Controller::Slave, 15),
        (0x30, Controller::Slave, 16),
        (0xff, Controller::Slave, 0xdf),
    ];
    for (index, controller, line) in cases {
        let todo = set_irq_handler(&mut table, index, 0, &tables, 0, MASTER_OFFSET);
        assert_eq!(todo, Some(IrqInstall { vector: index as u8, controller, line }));
    }
}

#[test]
fn line_wraps_around_below_the_master_offset() {
    let mut table = InterruptRedirectionTable::new();
    let tables = guest_tables();
    let todo = set_irq_handler(&mut table, 0x1f, 0, &tables, 0, MASTER_OFFSET);
    assert_eq!(todo, Some(IrqInstall { vector: 0x1f, controller: Controller::Slave, line: 0xff }));
    let todo = set_irq_handler(&mut table, 0, 0, &tables, 0, MASTER_OFFSET);
    assert_eq!(todo, Some(IrqInstall { vector: 0, controller: Controller::Slave, line: 0xe0 }));
    let todo = set_irq_handler(&mut table, 5, 0, &tables, 0, 0);
    assert_eq!(todo, Some(IrqInstall { vector: 5, controller: Controller::Master, line: 5 }));
    let todo = set_irq_handler(&mut table, 3, 0, &tables, 0, 0xfc);
    assert_eq!(todo, Some(IrqInstall { vector: 3, controller: Controller::Master, line: 7 }));
}
