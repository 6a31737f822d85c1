//! Plain data shapes of the API layer around the codec.
//!
//! These carry requests and responses between the web handlers and the
//! services. Serialization and HTTP concerns live with the application
//! layer; the library only fixes the fields.

use vstd::prelude::*;

verus! {

/// Standard response format for success.
pub struct ApiResponse<T> {
    pub status: String,
    pub message: String,
    pub data: Option<T>,
}

/// Standard error response format.
pub struct ErrorResponse {
    pub status: String,
    pub message: String,
    pub error: Option<String>,
}

/// A user registration request.
#[derive(Debug)]
pub struct UserRegisterRequest {
    pub email: String,
    pub password: String,
}

/// User details returned in API responses.
#[derive(Debug)]
pub struct UserResponse {
    pub id: i32,
    pub email: String,
}

/// A login request.
#[derive(Debug)]
pub struct UserLoginRequest {
    pub email: String,
    pub password: String,
}

/// A successful login: the user and a fresh token.
#[derive(Debug)]
pub struct UserLoginResponse {
    pub id: i32,
    pub email: String,
    pub token: String,
}

/// Creating or updating a cart.
#[derive(Debug)]
pub struct CartRequest {
    pub user_id: i32,
}

/// Creating or updating a cart item.
#[derive(Debug)]
pub struct CartItemRequest {
    pub product_id: i32,
    pub quantity: i32,
}

/// Cart details returned in responses.
#[derive(Debug)]
pub struct CartResponse {
    pub id: i32,
    pub user_id: i32,
    pub created_at: String,
    pub updated_at: String,
}

/// Cart item details returned in responses.
#[derive(Debug)]
pub struct CartItemResponse {
    pub id: i32,
    pub cart_id: i32,
    pub product_id: i32,
    pub quantity: i32,
    pub created_at: String,
    pub updated_at: String,
}

/// Updating the payment status of an order.
#[derive(Debug)]
pub struct UpdatePaymentStatusRequest {
    pub new_status: String,
}

/// The claims carried by an issued token.
#[derive(Debug)]
pub struct Claims {
    pub sub: i32,
    pub email: String,
    pub exp: usize,
}

} // verus!
