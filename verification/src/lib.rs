//! Verified core of the platform proof-of-concept services: request
//! parsing, routing and response decisions, order grouping, inventory
//! and catalogue rules, and the step functions that drive the services'
//! conversations with their stores.

pub mod http_path;
pub mod text;
pub mod uuid_text;
pub mod notification_config;
pub mod order_config;
pub mod product_config;
pub mod shop_types;
pub mod orders_component;
pub mod order_service;
pub mod notifier;
pub mod stock_check;
pub mod product_service;
pub mod wasmcloud_products;
pub mod routing;
pub mod controller;
pub mod body_reader;
pub mod legacy_controller;
pub mod inventory_component;
pub mod notification_component;
pub mod products_component;
pub mod data_init;
pub mod key_index;
